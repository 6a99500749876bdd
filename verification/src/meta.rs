//! Module metadata: the registered modules with their descriptions and
//! command help lines, and the help text rendered for one module.

use vstd::prelude::*;
use vstd::string::StringExecFns;
use crate::text::{join, join_with, str_eq};

verus! {

/// One module's metadata: its name, its description and its commands with
/// their help lines.
#[derive(Clone, Debug)]
pub struct Metadata {
    pub name: String,
    pub description: String,
    pub commands: Vec<(String, String)>,
}

/// Mathematical view of one module's metadata.
pub struct MetadataView {
    pub name: Seq<char>,
    pub description: Seq<char>,
    pub commands: Seq<(Seq<char>, Seq<char>)>,
}

impl View for Metadata {
    type V = MetadataView;

    open spec fn view(&self) -> MetadataView {
        MetadataView {
            name: self.name@,
            description: self.description@,
            commands: self.commands.deep_view(),
        }
    }
}

/// The registered modules, with the per-module help texts.
#[derive(Clone, Debug)]
pub struct MetadataCollection {
    pub helps: Vec<(String, String)>,
    pub modules: Vec<Metadata>,
}

/// The views of a sequence of modules.
pub open spec fn modules_view(s: Seq<Metadata>) -> Seq<MetadataView> {
    s.map_values(|m: Metadata| m@)
}

/// The first module of the given name, searched front to back.
pub open spec fn find_module(mods: Seq<MetadataView>, name: Seq<char>) -> Option<MetadataView>
    decreases mods.len(),
{
    if mods.len() == 0 {
        None
    } else if mods[0].name == name {
        Some(mods[0])
    } else {
        find_module(mods.drop_first(), name)
    }
}

/// One command's help line.
pub open spec fn command_line(c: (Seq<char>, Seq<char>)) -> Seq<char> {
    "/"@ + c.0 + ": "@ + c.1
}

/// The rendered help text of one module: its name as a bold murkdown
/// heading, its description, and one line per command.
pub open spec fn module_text(m: MetadataView) -> Seq<char> {
    "[*"@ + m.name + "]:\n"@ + m.description + "\n\nCommands:\n"@ + join_with(
        m.commands.map_values(|c: (Seq<char>, Seq<char>)| command_line(c)),
        "\n"@,
    )
}

impl MetadataCollection {
    /// The rendered help text of the module of the given name, or the
    /// word `invalid` where no module has it.
    pub fn get_module_text(&self, module: &str) -> (r: String)
        ensures
            r@ == match find_module(modules_view(self.modules@), module@) {
                Some(m) => module_text(m),
                None => "invalid"@,
            },
    {
        let n = self.modules.len();
        let mut i: usize = 0;
        proof {
            assert(modules_view(self.modules@).skip(0) =~= modules_view(self.modules@));
        }
        while i < n
            invariant
                i <= n,
                n == self.modules@.len(),
                find_module(modules_view(self.modules@), module@) == find_module(
                    modules_view(self.modules@).skip(i as int),
                    module@,
                ),
            decreases n - i,
        {
            proof {
                assert(modules_view(self.modules@).skip(i as int)[0] == self.modules@[i as int]@);
            }
            if str_eq(self.modules[i].name.as_str(), module) {
                proof {
                    assert(find_module(
                        modules_view(self.modules@).skip(i as int),
                        module@,
                    ) == Some(self.modules@[i as int]@));
                }
                return render_module_text(&self.modules[i]);
            }
            proof {
                assert(modules_view(self.modules@).skip(i as int).drop_first() =~= modules_view(
                    self.modules@,
                ).skip(i as int + 1));
            }
            i = i + 1;
        }
        proof {
            assert(modules_view(self.modules@).skip(n as int).len() == 0);
        }
        "invalid".to_owned()
    }
}

/// Renders one module's help text.
fn render_module_text(m: &Metadata) -> (r: String)
    ensures
        r@ == module_text(m@),
{
    let mut lines: Vec<String> = Vec::new();
    let mut i: usize = 0;
    while i < m.commands.len()
        invariant
            i <= m.commands@.len(),
            lines@.len() == i,
            forall|j: int| 0 <= j < i ==> #[trigger] lines@[j]@ == command_line(
                m.commands.deep_view()[j],
            ),
        decreases m.commands@.len() - i,
    {
        let mut line = "/".to_owned();
        line.append(m.commands[i].0.as_str());
        line.append(": ");
        line.append(m.commands[i].1.as_str());
        lines.push(line);
        i = i + 1;
    }
    proof {
        assert(lines.deep_view() =~= m@.commands.map_values(
            |c: (Seq<char>, Seq<char>)| command_line(c),
        ));
    }
    let mut r = "[*".to_owned();
    r.append(m.name.as_str());
    r.append("]:\n");
    r.append(m.description.as_str());
    r.append("\n\nCommands:\n");
    let joined = join(&lines, "\n");
    r.append(joined.as_str());
    r
}

} // verus!
