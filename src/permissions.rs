use vstd::prelude::*;
use crate::text::{chars_of, starts_with, str_eq, text_of};

verus! {

/// `p` starts with `root`, character by character.
pub open spec fn has_prefix(p: Seq<char>, root: Seq<char>) -> bool {
    root.is_prefix_of(p)
}

/// The plain contents of a grant.
pub struct GrantView {
    pub id: Seq<char>,
    pub path: Seq<char>,
    pub granted_at: u64,
}

/// A root of the filesystem that the user has authorized.
pub struct FolderPermission {
    pub id: String,
    pub path: String,
    pub granted_at: u64,
}

impl View for FolderPermission {
    type V = GrantView;

    open spec fn view(&self) -> GrantView {
        GrantView { id: self.id@, path: self.path@, granted_at: self.granted_at }
    }
}

impl FolderPermission {
    /// A copy whose fields hold the same text.
    pub fn duplicate(&self) -> (r: FolderPermission)
        ensures
            r@ == self@,
    {
        FolderPermission { id: self.id.clone(), path: self.path.clone(), granted_at: self.granted_at }
    }
}

/// Relies on `uuid::Uuid::new_v4` and its `Display`: a random identifier in the
/// hyphenated form, which has 36 characters.
#[verifier::external_body]
fn fresh_grant_id() -> (r: String)
    ensures
        r@.len() == 36,
{
    uuid::Uuid::new_v4().to_string()
}

/// Relies on `std::time::SystemTime::elapsed` taken from the Unix epoch: whole
/// seconds until now, or `None` when the clock stands before the epoch.
#[verifier::external_body]
fn seconds_since_epoch() -> (r: Option<u64>) {
    std::time::UNIX_EPOCH.elapsed().ok().map(|d| d.as_secs())
}

/// The registry of granted roots. Identifiers are unique within it and no
/// root is empty.
pub struct PermissionStore {
    folders: Vec<FolderPermission>,
}

impl View for PermissionStore {
    type V = Seq<GrantView>;

    closed spec fn view(&self) -> Seq<GrantView> {
        self.folders@.map_values(|g: FolderPermission| g@)
    }
}

/// Some grant's root is a prefix of `p`.
pub open spec fn authorizes(grants: Seq<GrantView>, p: Seq<char>) -> bool {
    exists|i: int| 0 <= i < grants.len() && has_prefix(p, #[trigger] grants[i].path)
}

/// Some grant carries identifier `id`.
pub open spec fn holds_id(grants: Seq<GrantView>, id: Seq<char>) -> bool {
    exists|i: int| 0 <= i < grants.len() && #[trigger] grants[i].id == id
}

/// Where the grant with identifier `id` stands (meaningful when one does).
pub open spec fn id_index(grants: Seq<GrantView>, id: Seq<char>) -> int {
    choose|i: int| 0 <= i < grants.len() && #[trigger] grants[i].id == id
}

/// The grants once the one with identifier `id`, if any, is taken out.
pub open spec fn without_id(grants: Seq<GrantView>, id: Seq<char>) -> Seq<GrantView> {
    if holds_id(grants, id) {
        grants.remove(id_index(grants, id))
    } else {
        grants
    }
}

/// Identifiers are unique and roots are not empty.
pub open spec fn grants_wf(grants: Seq<GrantView>) -> bool {
    &&& forall|i: int, j: int|
        0 <= i < grants.len() && 0 <= j < grants.len() && i != j ==> #[trigger] grants[i].id
            != #[trigger] grants[j].id
    &&& forall|i: int| 0 <= i < grants.len() ==> (#[trigger] grants[i]).path.len() > 0
}

impl PermissionStore {
    pub open spec fn wf(&self) -> bool {
        grants_wf(self@)
    }

    /// An empty registry.
    pub fn new() -> (r: PermissionStore)
        ensures
            r.wf(),
            r@ == Seq::<GrantView>::empty(),
    {
        let r = PermissionStore { folders: Vec::new() };
        assert(r@ =~= Seq::<GrantView>::empty());
        r
    }

    /// Some grant carries identifier `id`.
    fn holds(&self, id: &str) -> (r: bool)
        ensures
            r == holds_id(self@, id@),
    {
        let mut i: usize = 0;
        while i < self.folders.len()
            invariant
                0 <= i <= self.folders@.len(),
                forall|k: int| 0 <= k < i ==> (#[trigger] self@[k]).id != id@,
            decreases self.folders@.len() - i,
        {
            if str_eq(self.folders[i].id.as_str(), id) {
                assert(self@[i as int].id == id@);
                return true;
            }
            i = i + 1;
        }
        false
    }

    /// A length that no stored identifier exceeds.
    fn longest_id(&self) -> (r: usize)
        ensures
            forall|k: int| 0 <= k < self@.len() ==> (#[trigger] self@[k]).id.len() <= r,
    {
        let mut m: usize = 0;
        let mut i: usize = 0;
        while i < self.folders.len()
            invariant
                0 <= i <= self.folders@.len(),
                forall|k: int| 0 <= k < i ==> (#[trigger] self@[k]).id.len() <= m,
            decreases self.folders@.len() - i,
        {
            let n = self.folders[i].id.as_str().unicode_len();
            if n > m {
                m = n;
            }
            i = i + 1;
        }
        m
    }

    /// Grants `path` under a fresh random identifier, stamped with the current
    /// time (zero when the clock reads before the Unix epoch). Should the
    /// random identifier be held already, it is lengthened with `-` past every
    /// stored one, so the registry always grows by this one grant.
    pub fn add(&mut self, path: String) -> (r: FolderPermission)
        requires
            old(self).wf(),
            path@.len() > 0,
        ensures
            final(self).wf(),
            r.path@ == path@,
            r.id@.len() >= 36,
            !holds_id(old(self)@, r.id@),
            final(self)@ == old(self)@.push(r@),
    {
        let mut id = fresh_grant_id();
        if self.holds(id.as_str()) {
            let m = self.longest_id();
            let mut cs = chars_of(id.as_str());
            while cs.len() <= m
                invariant
                    cs@.len() >= 36,
                decreases m + 1 - cs@.len(),
            {
                cs.push('-');
            }
            id = text_of(&cs);
            assert forall|k: int| 0 <= k < self@.len() implies (#[trigger] self@[k]).id != id@ by {
                assert(self@[k].id.len() <= m);
            }
        }
        let granted_at: u64 = match seconds_since_epoch() {
            Some(s) => s,
            None => 0,
        };
        let ghost before = self@;
        let r = self.add_with(id, path, granted_at);
        assert(without_id(before, r.id@) == before);
        r
    }

    /// Grants `path` under identifier `id`, stamped with `granted_at`. A grant
    /// that held the same identifier is replaced.
    pub fn add_with(&mut self, id: String, path: String, granted_at: u64) -> (r: FolderPermission)
        requires
            old(self).wf(),
            path@.len() > 0,
        ensures
            final(self).wf(),
            r@ == (GrantView { id: id@, path: path@, granted_at }),
            final(self)@ == without_id(old(self)@, id@).push(r@),
    {
        let _ = self.remove(id.as_str());
        let perm = FolderPermission { id, path, granted_at };
        let ghost before = self@;
        self.folders.push(perm.duplicate());
        assert(self@ =~= before.push(perm@));
        assert forall|i: int| 0 <= i < before.len() implies #[trigger] before[i].id != perm@.id by {
            if before[i].id == perm@.id {
                assert(holds_id(before, perm@.id));
            }
        }
        perm
    }

    /// Takes out the grant with identifier `id` and hands it back; `None` when
    /// no grant carries it.
    pub fn remove(&mut self, id: &str) -> (r: Option<FolderPermission>)
        requires
            old(self).wf(),
        ensures
            final(self).wf(),
            final(self)@ == without_id(old(self)@, id@),
            !holds_id(final(self)@, id@),
            r is Some <==> holds_id(old(self)@, id@),
            r matches Some(g) ==> g@ == old(self)@[id_index(old(self)@, id@)] && g@.id == id@,
    {
        let ghost s = self@;
        let n = self.folders.len();
        let mut i: usize = 0;
        while i < n
            invariant
                n == self.folders@.len(),
                self@ == s,
                s == old(self)@,
                grants_wf(s),
                0 <= i <= n,
                forall|k: int| 0 <= k < i ==> (#[trigger] s[k]).id != id@,
            decreases n - i,
        {
            if str_eq(self.folders[i].id.as_str(), id) {
                assert(s[i as int].id == id@);
                assert(holds_id(s, id@));
                assert(id_index(s, id@) == i);
                let g = self.folders.remove(i);
                assert(self@ =~= s.remove(i as int));
                proof {
                    let t = self@;
                    assert forall|a: int, b: int|
                        0 <= a < t.len() && 0 <= b < t.len() && a != b implies #[trigger] t[a].id
                            != #[trigger] t[b].id by {
                        let a2 = if a < i { a } else { a + 1 };
                        let b2 = if b < i { b } else { b + 1 };
                        assert(t[a] == s[a2]);
                        assert(t[b] == s[b2]);
                    }
                    assert forall|a: int| 0 <= a < t.len() implies (#[trigger] t[a]).path.len() > 0 by {
                        let a2 = if a < i { a } else { a + 1 };
                        assert(t[a] == s[a2]);
                    }
                    assert forall|a: int| 0 <= a < t.len() implies #[trigger] t[a].id != id@ by {
                        let a2 = if a < i { a } else { a + 1 };
                        assert(t[a] == s[a2]);
                    }
                }
                return Some(g);
            }
            i = i + 1;
        }
        proof {
            assert forall|k: int| 0 <= k < s.len() implies #[trigger] s[k].id != id@ by {}
        }
        None
    }

    /// A snapshot of the grants.
    pub fn list(&self) -> (r: Vec<FolderPermission>)
        ensures
            r@.map_values(|g: FolderPermission| g@) == self@,
    {
        let mut r: Vec<FolderPermission> = Vec::new();
        let mut i: usize = 0;
        while i < self.folders.len()
            invariant
                0 <= i <= self.folders@.len(),
                r@.len() == i,
                r@.map_values(|g: FolderPermission| g@) == self@.subrange(0, i as int),
            decreases self.folders@.len() - i,
        {
            let ghost prev = r@;
            let g = self.folders[i].duplicate();
            r.push(g);
            assert forall|k: int| 0 <= k <= i implies #[trigger] r@[k]@ == self@[k] by {
                if k < i {
                    assert(r@[k] == prev[k]);
                    assert(prev.map_values(|g: FolderPermission| g@)[k] == self@.subrange(0, i as int)[k]);
                }
            }
            i = i + 1;
            assert(r@.map_values(|g: FolderPermission| g@) =~= self@.subrange(0, i as int));
        }
        assert(self@ =~= self@.subrange(0, i as int));
        r
    }

    /// Some grant's root is a prefix of `path`, as text: a root `/a/b`
    /// also covers `/a/bc`.
    pub fn is_path_allowed(&self, path: &str) -> (r: bool)
        ensures
            r == authorizes(self@, path@),
    {
        let mut i: usize = 0;
        while i < self.folders.len()
            invariant
                0 <= i <= self.folders@.len(),
                forall|k: int| 0 <= k < i ==> !has_prefix(path@, #[trigger] self@[k].path),
            decreases self.folders@.len() - i,
        {
            if starts_with(path, self.folders[i].path.as_str()) {
                assert(has_prefix(path@, self@[i as int].path));
                return true;
            }
            i = i + 1;
        }
        false
    }
}

impl Default for PermissionStore {
    fn default() -> (r: PermissionStore)
        ensures
            r.wf(),
            r@ == Seq::<GrantView>::empty(),
    {
        PermissionStore::new()
    }
}

/// Every grant covers its own root and every text that extends it, separator
/// or not; a path that no root starts is refused.
pub proof fn lemma_grant_covers_extensions(grants: Seq<GrantView>, i: int, suffix: Seq<char>)
    requires
        0 <= i < grants.len(),
    ensures
        authorizes(grants, grants[i].path),
        authorizes(grants, grants[i].path + suffix),
        forall|p: Seq<char>|
            (forall|k: int| 0 <= k < grants.len() ==> !has_prefix(p, #[trigger] grants[k].path))
                ==> !authorizes(grants, p),
{
    let root = grants[i].path;
    assert(root.is_prefix_of(root)) by {
        assert(root =~= root.subrange(0, root.len() as int));
    }
    assert(root.is_prefix_of(root + suffix)) by {
        assert(root =~= (root + suffix).subrange(0, root.len() as int));
    }
}

/// Revoking an identifier that the registry holds removes that grant alone:
/// paths that only it covered are refused afterwards, and paths that another
/// grant covers stay allowed.
pub proof fn lemma_revoke_removes_one(grants: Seq<GrantView>, id: Seq<char>, p: Seq<char>)
    requires
        grants_wf(grants),
        holds_id(grants, id),
    ensures
        ({
            let idx = id_index(grants, id);
            let rest = without_id(grants, id);
            &&& rest.len() == grants.len() - 1
            &&& !holds_id(rest, id)
            &&& forall|j: int| 0 <= j < grants.len() && j != idx ==> rest.contains(#[trigger] grants[j])
            &&& (forall|j: int| 0 <= j < grants.len() && j != idx ==> !has_prefix(p, #[trigger] grants[j].path))
                ==> !authorizes(rest, p)
            &&& (exists|j: int| 0 <= j < grants.len() && j != idx && has_prefix(p, #[trigger] grants[j].path))
                ==> authorizes(rest, p)
        }),
{
    let idx = id_index(grants, id);
    let rest = without_id(grants, id);
    assert forall|j: int| 0 <= j < grants.len() && j != idx implies rest.contains(#[trigger] grants[j]) by {
        let k = if j < idx { j } else { j - 1 };
        assert(rest[k] == grants[j]);
    }
    if holds_id(rest, id) {
        let k = choose|k: int| 0 <= k < rest.len() && #[trigger] rest[k].id == id;
        let j = if k < idx { k } else { k + 1 };
        assert(rest[k] == grants[j]);
    }
    if authorizes(rest, p) && (forall|j: int| 0 <= j < grants.len() && j != idx ==> !has_prefix(p, #[trigger] grants[j].path)) {
        let k = choose|k: int| 0 <= k < rest.len() && has_prefix(p, #[trigger] rest[k].path);
        let j = if k < idx { k } else { k + 1 };
        assert(rest[k] == grants[j]);
    }
    if exists|j: int| 0 <= j < grants.len() && j != idx && has_prefix(p, #[trigger] grants[j].path) {
        let j = choose|j: int| 0 <= j < grants.len() && j != idx && has_prefix(p, #[trigger] grants[j].path);
        let k = if j < idx { j } else { j - 1 };
        assert(rest[k] == grants[j]);
    }
}

/// A new grant allows exactly what was allowed before and every path its
/// root starts; nothing allowed before stops being allowed.
pub proof fn lemma_grant_adds_root(grants: Seq<GrantView>, g: GrantView, p: Seq<char>)
    ensures
        authorizes(grants.push(g), p) <==> (authorizes(grants, p) || has_prefix(p, g.path)),
{
    let s = grants.push(g);
    if authorizes(grants, p) {
        let i = choose|i: int| 0 <= i < grants.len() && has_prefix(p, #[trigger] grants[i].path);
        assert(s[i] == grants[i]);
    }
    if has_prefix(p, g.path) {
        assert(s[grants.len() as int] == g);
    }
    if authorizes(s, p) {
        let i = choose|i: int| 0 <= i < s.len() && has_prefix(p, #[trigger] s[i].path);
        if i < grants.len() {
            assert(s[i] == grants[i]);
        }
    }
}

} // verus!
