//! Access control: entries, accessors and the `allow` decision.
//!
//! An entry grants a privilege to a set of subjects over a set of targets
//! within one fabric and one authentication mode. A request is allowed iff
//! some entry matches it; the default is deny. An empty subject or target
//! list in an entry is a wildcard and matches every accessor or target.

use vstd::prelude::*;

use crate::error::Error;

verus! {

/// Capacity of the access-control list.
pub const MAX_ACL_ENTRIES: usize = 8;
/// How many subjects one entry can name.
pub const SUBJECTS_PER_ENTRY: usize = 4;
/// How many targets one entry can name.
pub const TARGETS_PER_ENTRY: usize = 3;

/// Upper 32 bits that mark a subject id as a CASE Authenticated Tag.
pub const NOC_CAT_SUBJECT_PREFIX: u64 = 0xFFFF_FFFD_0000_0000;

/// The privileges, in increasing order of power.
#[derive(Clone, Copy, Debug, PartialEq, Eq, Structural)]
pub enum Privilege {
    View,
    Operate,
    Manage,
    Admin,
}

impl Privilege {
    /// Position in the ordering View < Operate < Manage < Admin.
    pub open spec fn spec_rank(self) -> int {
        match self {
            Privilege::View => 1,
            Privilege::Operate => 2,
            Privilege::Manage => 3,
            Privilege::Admin => 4,
        }
    }

    /// A granted privilege covers a needed one iff it ranks at least as high.
    pub open spec fn spec_grants(self, needed: Privilege) -> bool {
        self.spec_rank() >= needed.spec_rank()
    }

    pub fn rank(&self) -> (r: u8)
        ensures
            r as int == self.spec_rank(),
    {
        match self {
            Privilege::View => 1,
            Privilege::Operate => 2,
            Privilege::Manage => 3,
            Privilege::Admin => 4,
        }
    }

    pub fn grants(&self, needed: &Privilege) -> (r: bool)
        ensures
            r == self.spec_grants(*needed),
    {
        self.rank() >= needed.rank()
    }
}

/// How the peer authenticated its session.
#[derive(Clone, Copy, Debug, PartialEq, Eq, Structural)]
pub enum AuthMode {
    Case,
    Pase,
    Group,
}

/// One target of an entry; an unset field matches anything.
#[derive(Clone, Copy, Debug, PartialEq, Eq, Structural)]
pub struct Target {
    pub endpoint: Option<u16>,
    pub cluster: Option<u32>,
    pub device_type: Option<u32>,
}

impl Target {
    pub fn new(endpoint: Option<u16>, cluster: Option<u32>, device_type: Option<u32>) -> (t:
        Target)
        ensures
            t == (Target { endpoint, cluster, device_type }),
    {
        Target { endpoint, cluster, device_type }
    }
}

/// Who is asking: the session's subject identity.
#[derive(Clone, Copy, Debug)]
pub struct Accessor {
    pub fab_idx: u8,
    pub node_id: u64,
    /// CASE Authenticated Tags of the accessor's certificate; 0 marks an
    /// unused slot.
    pub cat_ids: [u64; 3],
    pub auth_mode: AuthMode,
}

/// What is asked: one concrete access to one cluster instance.
#[derive(Clone, Copy, Debug)]
pub struct AccessReq {
    pub fab_idx: u8,
    pub endpoint: u16,
    pub cluster: u32,
    pub privilege: Privilege,
}

/// Builds a CAT subject id out of a tag id and a tag version.
pub fn gen_noc_cat(id: u16, version: u16) -> (s: u64)
    ensures
        s == NOC_CAT_SUBJECT_PREFIX | ((id as u64) << 16) | (version as u64),
{
    NOC_CAT_SUBJECT_PREFIX | ((id as u64) << 16) | (version as u64)
}

/// A subject id denotes a CAT iff its upper half carries the CAT prefix.
pub open spec fn spec_is_noc_cat(s: u64) -> bool {
    s & 0xFFFF_FFFF_0000_0000 == NOC_CAT_SUBJECT_PREFIX
}

/// The tag id of a CAT subject.
pub open spec fn spec_cat_id(s: u64) -> u64 {
    (s >> 16) & 0xFFFF
}

/// The tag version of a CAT subject.
pub open spec fn spec_cat_version(s: u64) -> u64 {
    s & 0xFFFF
}

/// An accessor's CAT `have` satisfies an entry's CAT `want` iff the ids agree
/// and the accessor's version is at least the entry's.
pub open spec fn spec_cat_dominates(have: u64, want: u64) -> bool {
    &&& spec_is_noc_cat(have)
    &&& spec_cat_id(have) == spec_cat_id(want)
    &&& spec_cat_version(have) >= spec_cat_version(want)
}

/// One subject id of an entry matches an accessor iff it is the accessor's
/// node id, or (under CASE) it is a CAT that some CAT of the accessor
/// dominates.
pub open spec fn spec_subject_matches(s: u64, acc: Accessor) -> bool {
    ||| s == acc.node_id
    ||| (acc.auth_mode is Case && spec_is_noc_cat(s) && exists|k: int|
        0 <= k < 3 && spec_cat_dominates(acc.cat_ids@[k], s))
}

/// An empty subject list is a wildcard; otherwise some listed subject must
/// match.
pub open spec fn spec_subjects_match(subjects: Seq<u64>, acc: Accessor) -> bool {
    ||| subjects.len() == 0
    ||| exists|j: int| 0 <= j < subjects.len() && spec_subject_matches(subjects[j], acc)
}

/// A target matches a request iff each set field agrees with it; requests
/// carry no device type, so a set device type never matches.
pub open spec fn spec_target_matches(t: Target, req: AccessReq) -> bool {
    &&& (t.endpoint is None || t.endpoint == Some(req.endpoint))
    &&& (t.cluster is None || t.cluster == Some(req.cluster))
    &&& t.device_type is None
}

/// An empty target list is a wildcard; otherwise some listed target must
/// match.
pub open spec fn spec_targets_match(targets: Seq<Target>, req: AccessReq) -> bool {
    ||| targets.len() == 0
    ||| exists|j: int| 0 <= j < targets.len() && spec_target_matches(targets[j], req)
}

/// The mathematical shape of one entry.
#[verifier::ext_equal]
pub struct AclEntryView {
    pub fab_idx: u8,
    pub privilege: Privilege,
    pub auth_mode: AuthMode,
    pub subjects: Seq<u64>,
    pub targets: Seq<Target>,
}

/// An entry matches a request from an accessor iff fabric and authentication
/// mode agree, some subject matches, some target matches, and the entry's
/// privilege covers the needed one.
pub open spec fn spec_entry_allows(e: AclEntryView, acc: Accessor, req: AccessReq) -> bool {
    &&& e.fab_idx == acc.fab_idx
    &&& e.fab_idx == req.fab_idx
    &&& e.auth_mode == acc.auth_mode
    &&& spec_subjects_match(e.subjects, acc)
    &&& spec_targets_match(e.targets, req)
    &&& e.privilege.spec_grants(req.privilege)
}

/// A request is allowed iff some entry matches it; the default is deny.
pub open spec fn spec_allows(entries: Seq<AclEntryView>, acc: Accessor, req: AccessReq) -> bool {
    exists|i: int| 0 <= i < entries.len() && spec_entry_allows(entries[i], acc, req)
}

/// One access-control entry.
#[derive(Debug)]
pub struct AclEntry {
    pub fab_idx: u8,
    pub privilege: Privilege,
    pub auth_mode: AuthMode,
    subjects: Vec<u64>,
    targets: Vec<Target>,
}

impl Clone for AclEntry {
    fn clone(&self) -> (r: Self)
        ensures
            r@ == self@,
    {
        let subjects = self.subjects.clone();
        let targets = self.targets.clone();
        proof {
            assert(subjects@ =~= self.subjects@);
            assert(targets@ =~= self.targets@);
        }
        AclEntry {
            fab_idx: self.fab_idx,
            privilege: self.privilege,
            auth_mode: self.auth_mode,
            subjects,
            targets,
        }
    }
}

impl View for AclEntry {
    type V = AclEntryView;

    closed spec fn view(&self) -> AclEntryView {
        AclEntryView {
            fab_idx: self.fab_idx,
            privilege: self.privilege,
            auth_mode: self.auth_mode,
            subjects: self.subjects@,
            targets: self.targets@,
        }
    }
}

impl AclEntry {
    /// A fresh entry with wildcard subjects and wildcard targets.
    pub fn new(fab_idx: u8, privilege: Privilege, auth_mode: AuthMode) -> (e: AclEntry)
        ensures
            e@ == (AclEntryView {
                fab_idx,
                privilege,
                auth_mode,
                subjects: Seq::<u64>::empty(),
                targets: Seq::<Target>::empty(),
            }),
    {
        let e = AclEntry { fab_idx, privilege, auth_mode, subjects: Vec::new(), targets: Vec::new() };
        proof {
            assert(e@.subjects =~= Seq::<u64>::empty());
            assert(e@.targets =~= Seq::<Target>::empty());
        }
        e
    }

    /// Names one more subject; fails once the entry is full.
    pub fn add_subject(&mut self, subject: u64) -> (r: Result<(), Error>)
        ensures
            match r {
                Ok(()) => final(self)@ == (AclEntryView {
                    subjects: old(self)@.subjects.push(subject),
                    ..old(self)@
                }) && old(self)@.subjects.len() < SUBJECTS_PER_ENTRY,
                Err(e) => e == Error::NoSpace && final(self)@ == old(self)@ && old(
                    self,
                )@.subjects.len() >= SUBJECTS_PER_ENTRY,
            },
    {
        if self.subjects.len() >= SUBJECTS_PER_ENTRY {
            Err(Error::NoSpace)
        } else {
            self.subjects.push(subject);
            Ok(())
        }
    }

    /// Names one more CAT subject (the id as [`gen_noc_cat`] shapes it).
    pub fn add_subject_catid(&mut self, cat_subject: u64) -> (r: Result<(), Error>)
        ensures
            match r {
                Ok(()) => final(self)@ == (AclEntryView {
                    subjects: old(self)@.subjects.push(cat_subject),
                    ..old(self)@
                }) && old(self)@.subjects.len() < SUBJECTS_PER_ENTRY,
                Err(e) => e == Error::NoSpace && final(self)@ == old(self)@ && old(
                    self,
                )@.subjects.len() >= SUBJECTS_PER_ENTRY,
            },
    {
        self.add_subject(cat_subject)
    }

    /// Names one more target; fails once the entry is full.
    pub fn add_target(&mut self, target: Target) -> (r: Result<(), Error>)
        ensures
            match r {
                Ok(()) => final(self)@ == (AclEntryView {
                    targets: old(self)@.targets.push(target),
                    ..old(self)@
                }) && old(self)@.targets.len() < TARGETS_PER_ENTRY,
                Err(e) => e == Error::NoSpace && final(self)@ == old(self)@ && old(
                    self,
                )@.targets.len() >= TARGETS_PER_ENTRY,
            },
    {
        if self.targets.len() >= TARGETS_PER_ENTRY {
            Err(Error::NoSpace)
        } else {
            self.targets.push(target);
            Ok(())
        }
    }
}

fn subject_matches(s: u64, acc: &Accessor) -> (r: bool)
    ensures
        r == spec_subject_matches(s, *acc),
{
    if s == acc.node_id {
        return true;
    }
    let is_case = match acc.auth_mode {
        AuthMode::Case => true,
        _ => false,
    };
    if !is_case {
        return false;
    }
    if s & 0xFFFF_FFFF_0000_0000 != NOC_CAT_SUBJECT_PREFIX {
        return false;
    }
    let mut k: usize = 0;
    while k < 3
        invariant
            k <= 3,
            forall|t: int| 0 <= t < k ==> !spec_cat_dominates(acc.cat_ids@[t], s),
        decreases 3 - k,
    {
        let have = acc.cat_ids[k];
        if have & 0xFFFF_FFFF_0000_0000 == NOC_CAT_SUBJECT_PREFIX && (have >> 16) & 0xFFFF == (s
            >> 16) & 0xFFFF && have & 0xFFFF >= s & 0xFFFF {
            proof {
                assert(spec_cat_dominates(acc.cat_ids@[k as int], s));
            }
            return true;
        }
        k = k + 1;
    }
    false
}

fn subjects_match(subjects: &Vec<u64>, acc: &Accessor) -> (r: bool)
    ensures
        r == spec_subjects_match(subjects@, *acc),
{
    if subjects.len() == 0 {
        return true;
    }
    let mut j: usize = 0;
    while j < subjects.len()
        invariant
            j <= subjects@.len(),
            forall|t: int| 0 <= t < j ==> !spec_subject_matches(subjects@[t], *acc),
        decreases subjects@.len() - j,
    {
        if subject_matches(subjects[j], acc) {
            return true;
        }
        j = j + 1;
    }
    false
}

fn target_matches(t: &Target, req: &AccessReq) -> (r: bool)
    ensures
        r == spec_target_matches(*t, *req),
{
    let ep_ok = match t.endpoint {
        None => true,
        Some(ep) => ep == req.endpoint,
    };
    let cl_ok = match t.cluster {
        None => true,
        Some(cl) => cl == req.cluster,
    };
    let dt_ok = match t.device_type {
        None => true,
        Some(_) => false,
    };
    ep_ok && cl_ok && dt_ok
}

fn targets_match(targets: &Vec<Target>, req: &AccessReq) -> (r: bool)
    ensures
        r == spec_targets_match(targets@, *req),
{
    if targets.len() == 0 {
        return true;
    }
    let mut j: usize = 0;
    while j < targets.len()
        invariant
            j <= targets@.len(),
            forall|t: int| 0 <= t < j ==> !spec_target_matches(targets@[t], *req),
        decreases targets@.len() - j,
    {
        if target_matches(&targets[j], req) {
            return true;
        }
        j = j + 1;
    }
    false
}

fn auth_mode_eq(a: &AuthMode, b: &AuthMode) -> (r: bool)
    ensures
        r == (*a == *b),
{
    match (a, b) {
        (AuthMode::Case, AuthMode::Case) => true,
        (AuthMode::Pase, AuthMode::Pase) => true,
        (AuthMode::Group, AuthMode::Group) => true,
        _ => false,
    }
}

/// Whether one entry matches; see [`spec_entry_allows`].
pub fn entry_allows(e: &AclEntry, acc: &Accessor, req: &AccessReq) -> (r: bool)
    ensures
        r == spec_entry_allows(e@, *acc, *req),
{
    e.fab_idx == acc.fab_idx && e.fab_idx == req.fab_idx && auth_mode_eq(&e.auth_mode, &acc.auth_mode)
        && subjects_match(&e.subjects, acc) && targets_match(&e.targets, req)
        && e.privilege.grants(&req.privilege)
}

/// The access-control list of the node.
#[derive(Debug)]
pub struct AclMgr {
    entries: Vec<AclEntry>,
}

impl View for AclMgr {
    type V = Seq<AclEntryView>;

    closed spec fn view(&self) -> Seq<AclEntryView> {
        self.entries@.map(|i: int, e: AclEntry| e@)
    }
}

impl AclMgr {
    /// An empty list: everything is denied.
    pub fn new() -> (m: AclMgr)
        ensures
            m@ =~= Seq::<AclEntryView>::empty(),
    {
        AclMgr { entries: Vec::new() }
    }

    /// How many entries stand in the list.
    pub fn len(&self) -> (n: usize)
        ensures
            n == self@.len(),
    {
        self.entries.len()
    }

    /// Appends an entry; fails once the list is full.
    pub fn add(&mut self, entry: AclEntry) -> (r: Result<(), Error>)
        ensures
            match r {
                Ok(()) => final(self)@ =~= old(self)@.push(entry@) && old(self)@.len()
                    < MAX_ACL_ENTRIES,
                Err(e) => e == Error::NoSpace && final(self)@ == old(self)@ && old(self)@.len()
                    >= MAX_ACL_ENTRIES,
            },
    {
        if self.entries.len() >= MAX_ACL_ENTRIES {
            Err(Error::NoSpace)
        } else {
            self.entries.push(entry);
            Ok(())
        }
    }

    /// Empties the list: back to deny-all.
    pub fn clear(&mut self)
        ensures
            final(self)@ =~= Seq::<AclEntryView>::empty(),
    {
        self.entries.clear();
    }

    /// The `allow` decision: a request is allowed iff some entry matches it.
    pub fn allow(&self, acc: &Accessor, req: &AccessReq) -> (r: bool)
        ensures
            r == spec_allows(self@, *acc, *req),
    {
        let mut i: usize = 0;
        while i < self.entries.len()
            invariant
                i <= self@.len(),
                self@.len() == self.entries@.len(),
                forall|t: int| 0 <= t < i ==> !spec_entry_allows(self@[t], *acc, *req),
            decreases self@.len() - i,
        {
            let m = entry_allows(&self.entries[i], acc, req);
            proof {
                assert(self@[i as int] == self.entries@[i as int]@);
            }
            if m {
                return true;
            }
            i = i + 1;
        }
        false
    }
}

/// Adding an entry is monotone: a request that the list allows stays allowed
/// after any further entry is appended; no grant is ever revoked by a grant.
pub proof fn lemma_allow_monotone(
    entries: Seq<AclEntryView>,
    extra: AclEntryView,
    acc: Accessor,
    req: AccessReq,
)
    requires
        spec_allows(entries, acc, req),
    ensures
        spec_allows(entries.push(extra), acc, req),
{
    let i = choose|i: int| 0 <= i < entries.len() && spec_entry_allows(entries[i], acc, req);
    assert(entries.push(extra)[i] == entries[i]);
}

} // verus!
