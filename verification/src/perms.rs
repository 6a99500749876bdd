//! Granular permissions with human-readable names, used for printing
//! detailed error messages: a compound permission is granted only where
//! every member permission is.

use vstd::prelude::*;
use vstd::string::StrSliceExecFns;
use vstd::string::StringExecFns;
use crate::text::{join, join_with};

verus! {

/// One permission: a granted flag under a human-readable name.
#[derive(Clone, Debug)]
pub struct NamedPermissionContent {
    name: &'static str,
    val: bool,
}

/// Mathematical view of one permission.
pub struct ContentView {
    pub name: Seq<char>,
    pub granted: bool,
}

impl View for NamedPermissionContent {
    type V = ContentView;

    closed spec fn view(&self) -> ContentView {
        ContentView { name: self.name@, granted: self.val }
    }
}

impl NamedPermissionContent {
    /// One permission under the given name.
    pub fn new(name: &'static str, val: bool) -> (r: Self)
        ensures
            r@.name == name@,
            r@.granted == val,
    {
        NamedPermissionContent { name, val }
    }
}

/// The views of a sequence of permissions.
pub open spec fn contents_view(s: Seq<NamedPermissionContent>) -> Seq<ContentView> {
    s.map_values(|c: NamedPermissionContent| c@)
}

/// A compound permission is granted where all its members are.
pub open spec fn all_granted(s: Seq<ContentView>) -> bool {
    forall|i: int| 0 <= i < s.len() ==> (#[trigger] s[i]).granted
}

/// The names of a sequence of permissions.
pub open spec fn content_names(s: Seq<ContentView>) -> Seq<Seq<char>> {
    s.map_values(|c: ContentView| c.name)
}

/// A possibly compound permission with human-readable names.
#[derive(Clone, Debug)]
pub struct NamedPermission(Vec<NamedPermissionContent>);

impl View for NamedPermission {
    type V = Seq<ContentView>;

    closed spec fn view(&self) -> Seq<ContentView> {
        contents_view(self.0@)
    }
}

impl NamedPermission {
    /// A single permission under the given name.
    pub fn new(name: &'static str, val: bool) -> (r: Self)
        ensures
            r@ == seq![ContentView { name: name@, granted: val }],
    {
        let mut v: Vec<NamedPermissionContent> = Vec::new();
        v.push(NamedPermissionContent::new(name, val));
        let r = NamedPermission(v);
        proof {
            assert(r@ =~= seq![ContentView { name: name@, granted: val }]);
        }
        r
    }

    /// Whether every member permission is granted.
    pub fn is_granted(&self) -> (r: bool)
        ensures
            r == all_granted(self@),
    {
        let mut i: usize = 0;
        while i < self.0.len()
            invariant
                i <= self.0@.len(),
                forall|j: int| 0 <= j < i ==> (#[trigger] contents_view(self.0@)[j]).granted,
            decreases self.0@.len() - i,
        {
            if !self.0[i].val {
                proof {
                    assert(!contents_view(self.0@)[i as int].granted);
                }
                return false;
            }
            i = i + 1;
        }
        true
    }

    /// The human-readable name: the member names joined with `and`.
    pub fn get_name(&self) -> (r: String)
        ensures
            r@ == join_with(content_names(self@), " and "@),
    {
        let mut parts: Vec<String> = Vec::new();
        let mut i: usize = 0;
        while i < self.0.len()
            invariant
                i <= self.0@.len(),
                parts@.len() == i,
                forall|j: int| 0 <= j < i ==> #[trigger] parts@[j]@ == contents_view(
                    self.0@,
                )[j].name,
            decreases self.0@.len() - i,
        {
            parts.push(self.0[i].name.to_owned());
            i = i + 1;
        }
        proof {
            assert(parts.deep_view() =~= content_names(self@));
        }
        join(&parts, " and ")
    }

    /// The compound of this permission and another: granted only where
    /// both are.
    pub fn and(self, new_perm: Self) -> (r: Self)
        ensures
            r@ == self@ + new_perm@,
    {
        let ghost a = self@;
        let ghost b = new_perm@;
        let NamedPermission(mut v) = self;
        let NamedPermission(mut w) = new_perm;
        v.append(&mut w);
        let r = NamedPermission(v);
        proof {
            assert(r@ =~= a + b);
        }
        r
    }
}

} // verus!

verus! {

/// Plain chat permissions: the granted flags alone, without names.
#[derive(Clone, Copy, Debug, PartialEq, Eq, Structural)]
pub struct BotPermissions {
    pub can_manage_chat: bool,
    pub can_restrict_members: bool,
    pub can_delete_messages: bool,
    pub can_change_info: bool,
    pub can_promote_members: bool,
    pub can_pin_messages: bool,
}

/// Chat permissions with human-readable names, for printing detailed
/// error messages.
#[derive(Clone, Debug)]
pub struct NamedBotPermissions {
    pub can_manage_chat: NamedPermission,
    pub can_restrict_members: NamedPermission,
    pub can_delete_messages: NamedPermission,
    pub can_change_info: NamedPermission,
    pub can_promote_members: NamedPermission,
    pub can_pin_messages: NamedPermission,
    pub is_sudo: NamedPermission,
    pub is_support: NamedPermission,
}

impl NamedBotPermissions {
    /// Names each flag of plain permissions; the sudo and support flags
    /// start out denied.
    pub fn from_flags(value: BotPermissions) -> (r: Self)
        ensures
            r.can_manage_chat@ == seq![
                ContentView { name: "CanManageChat"@, granted: value.can_manage_chat },
            ],
            r.can_restrict_members@ == seq![
                ContentView { name: "CanRestrictMembers"@, granted: value.can_restrict_members },
            ],
            r.can_delete_messages@ == seq![
                ContentView { name: "CanDeleteMessasges"@, granted: value.can_delete_messages },
            ],
            r.can_change_info@ == seq![
                ContentView { name: "CanChangeInfo"@, granted: value.can_change_info },
            ],
            r.can_promote_members@ == seq![
                ContentView { name: "CanPromoteMembers"@, granted: value.can_promote_members },
            ],
            r.can_pin_messages@ == seq![
                ContentView { name: "CanPinMessages"@, granted: value.can_pin_messages },
            ],
            r.is_sudo@ == seq![ContentView { name: "Sudo"@, granted: false }],
            r.is_support@ == seq![ContentView { name: "Support"@, granted: false }],
    {
        NamedBotPermissions {
            can_manage_chat: NamedPermission::new("CanManageChat", value.can_manage_chat),
            can_restrict_members: NamedPermission::new(
                "CanRestrictMembers",
                value.can_restrict_members,
            ),
            can_delete_messages: NamedPermission::new(
                "CanDeleteMessasges",
                value.can_delete_messages,
            ),
            can_change_info: NamedPermission::new("CanChangeInfo", value.can_change_info),
            can_promote_members: NamedPermission::new(
                "CanPromoteMembers",
                value.can_promote_members,
            ),
            can_pin_messages: NamedPermission::new("CanPinMessages", value.can_pin_messages),
            is_sudo: NamedPermission::new("Sudo", false),
            is_support: NamedPermission::new("Support", false),
        }
    }
}

impl BotPermissions {
    /// Drops the names, keeping of each compound permission only whether
    /// it is granted as a whole.
    pub fn from_named(value: &NamedBotPermissions) -> (r: Self)
        ensures
            r.can_manage_chat == all_granted(value.can_manage_chat@),
            r.can_restrict_members == all_granted(value.can_restrict_members@),
            r.can_delete_messages == all_granted(value.can_delete_messages@),
            r.can_change_info == all_granted(value.can_change_info@),
            r.can_promote_members == all_granted(value.can_promote_members@),
            r.can_pin_messages == all_granted(value.can_pin_messages@),
    {
        BotPermissions {
            can_manage_chat: value.can_manage_chat.is_granted(),
            can_restrict_members: value.can_restrict_members.is_granted(),
            can_delete_messages: value.can_delete_messages.is_granted(),
            can_change_info: value.can_change_info.is_granted(),
            can_promote_members: value.can_promote_members.is_granted(),
            can_pin_messages: value.can_pin_messages.is_granted(),
        }
    }
}

} // verus!

verus! {

/// A sequence of permissions with every member granted, names kept.
pub open spec fn grant_all_view(s: Seq<ContentView>) -> Seq<ContentView> {
    s.map_values(|c: ContentView| ContentView { name: c.name, granted: true })
}

impl NamedPermission {
    /// Grants every member permission, keeping the names.
    fn grant_all(&mut self)
        ensures
            final(self)@ == grant_all_view(old(self)@),
    {
        let ghost before = self@;
        let mut out: Vec<NamedPermissionContent> = Vec::new();
        let mut i: usize = 0;
        while i < self.0.len()
            invariant
                i <= self.0@.len(),
                contents_view(self.0@) == before,
                out@.len() == i,
                forall|j: int| 0 <= j < i ==> #[trigger] contents_view(out@)[j] == (ContentView {
                    name: before[j].name,
                    granted: true,
                }),
            decreases self.0@.len() - i,
        {
            let ghost prev = out@;
            out.push(NamedPermissionContent::new(self.0[i].name, true));
            i = i + 1;
            proof {
                assert forall|j: int| 0 <= j < i - 1 implies #[trigger] contents_view(out@)[j]
                    == contents_view(prev)[j] by {
                    assert(out@[j] == prev[j]);
                }
                assert(contents_view(out@)[i - 1] == (ContentView {
                    name: before[i - 1].name,
                    granted: true,
                }));
            }
        }
        self.0 = out;
        proof {
            assert(self@ =~= grant_all_view(before));
        }
    }
}

impl NamedBotPermissions {
    /// The named permissions of a chat member, assembled from the cached
    /// admin flags, if any, and the operator lists: a non-admin starts
    /// with everything denied; a sudo operator is granted sudo and
    /// support rank, a support operator support rank alone.
    pub fn assemble(admin: Option<BotPermissions>, is_sudo: bool, is_support: bool) -> (r: Self)
        ensures
            r.can_manage_chat@ == seq![
                ContentView {
                    name: "CanManageChat"@,
                    granted: (match admin {
                        Some(a) => a.can_manage_chat,
                        None => false,
                    }),
                },
            ],
            r.can_restrict_members@ == seq![
                ContentView {
                    name: "CanRestrictMembers"@,
                    granted: (match admin {
                        Some(a) => a.can_restrict_members,
                        None => false,
                    }),
                },
            ],
            r.can_delete_messages@ == seq![
                ContentView {
                    name: "CanDeleteMessasges"@,
                    granted: (match admin {
                        Some(a) => a.can_delete_messages,
                        None => false,
                    }),
                },
            ],
            r.can_change_info@ == seq![
                ContentView {
                    name: "CanChangeInfo"@,
                    granted: (match admin {
                        Some(a) => a.can_change_info,
                        None => false,
                    }),
                },
            ],
            r.can_promote_members@ == seq![
                ContentView {
                    name: "CanPromoteMembers"@,
                    granted: (match admin {
                        Some(a) => a.can_promote_members,
                        None => false,
                    }),
                },
            ],
            r.can_pin_messages@ == seq![
                ContentView {
                    name: "CanPinMessages"@,
                    granted: (match admin {
                        Some(a) => a.can_pin_messages,
                        None => false,
                    }),
                },
            ],
            r.is_sudo@ == seq![ContentView { name: "Sudo"@, granted: is_sudo }],
            r.is_support@ == seq![
                ContentView { name: "Support"@, granted: is_sudo || is_support },
            ],
    {
        let flags = match admin {
            Some(a) => a,
            None => BotPermissions {
                can_manage_chat: false,
                can_restrict_members: false,
                can_delete_messages: false,
                can_change_info: false,
                can_promote_members: false,
                can_pin_messages: false,
            },
        };
        let mut v = NamedBotPermissions::from_flags(flags);
        if is_sudo {
            v.is_sudo.grant_all();
            v.is_support.grant_all();
            proof {
                assert(v.is_sudo@ =~= seq![ContentView { name: "Sudo"@, granted: true }]);
                assert(v.is_support@ =~= seq![ContentView { name: "Support"@, granted: true }]);
            }
        }
        if is_support {
            v.is_support.grant_all();
            proof {
                assert(v.is_support@ =~= seq![
                    ContentView { name: "Support"@, granted: true },
                ]);
            }
        }
        v
    }
}

} // verus!
