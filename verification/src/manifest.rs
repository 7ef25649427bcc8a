//! The manifest data model: file entries, the local and remote manifests,
//! and duplicate removal keyed by entry name.

use vstd::prelude::*;

verus! {

/// One file tracked by a manifest: a relative path, a hex-encoded content
/// digest, and a byte count.
pub struct FileDetails {
    pub name: String,
    pub hash: String,
    pub size: u64,
}

/// Mathematical image of a [`FileDetails`].
pub ghost struct FileRec {
    pub name: Seq<char>,
    pub hash: Seq<char>,
    pub size: u64,
}

impl View for FileDetails {
    type V = FileRec;

    open spec fn view(&self) -> FileRec {
        FileRec { name: self.name@, hash: self.hash@, size: self.size }
    }
}

impl FileDetails {
    pub fn new(name: String, hash: String, size: u64) -> (r: FileDetails)
        ensures
            r@ == (FileRec { name: name@, hash: hash@, size: size }),
    {
        FileDetails { name, hash, size }
    }
}

impl Clone for FileDetails {
    fn clone(&self) -> (r: Self)
        ensures
            r@ == self@,
    {
        FileDetails { name: self.name.clone(), hash: self.hash.clone(), size: self.size }
    }
}

impl PartialEq for FileDetails {
    fn eq(&self, other: &Self) -> (r: bool) {
        self.name == other.name && self.hash == other.hash && self.size == other.size
    }
}

impl vstd::std_specs::cmp::PartialEqSpecImpl for FileDetails {
    open spec fn obeys_eq_spec() -> bool {
        true
    }

    open spec fn eq_spec(&self, other: &Self) -> bool {
        self@ == other@
    }
}

/// The sequence of mathematical records behind a vector of entries.
pub open spec fn views_of(v: Seq<FileDetails>) -> Seq<FileRec> {
    v.map_values(|f: FileDetails| f@)
}

/// The local manifest: the engine's belief about what is correctly installed
/// under one installation directory.
#[allow(non_snake_case)]
pub struct GameManifestLocal {
    pub pathInstallLocation: String,
    pub gameId: u64,
    pub gameTitle: String,
    pub gameBinarySize: u64,
    pub version: String,
    pub files: Vec<FileDetails>,
}

/// Mathematical image of a [`GameManifestLocal`].
pub ghost struct LocalRec {
    pub path_install_location: Seq<char>,
    pub game_id: u64,
    pub game_title: Seq<char>,
    pub game_binary_size: u64,
    pub version: Seq<char>,
    pub files: Seq<FileRec>,
}

impl View for GameManifestLocal {
    type V = LocalRec;

    open spec fn view(&self) -> LocalRec {
        LocalRec {
            path_install_location: self.pathInstallLocation@,
            game_id: self.gameId,
            game_title: self.gameTitle@,
            game_binary_size: self.gameBinarySize,
            version: self.version@,
            files: views_of(self.files@),
        }
    }
}

impl Clone for GameManifestLocal {
    fn clone(&self) -> (r: Self)
        ensures
            r@ == self@,
    {
        let r = GameManifestLocal {
            pathInstallLocation: self.pathInstallLocation.clone(),
            gameId: self.gameId,
            gameTitle: self.gameTitle.clone(),
            gameBinarySize: self.gameBinarySize,
            version: self.version.clone(),
            files: clone_entries(&self.files),
        };
        proof {
            assert(r@.files =~= self@.files);
        }
        r
    }
}

impl PartialEq for GameManifestLocal {
    fn eq(&self, other: &Self) -> (r: bool) {
        self.pathInstallLocation == other.pathInstallLocation && self.gameId == other.gameId
            && self.gameTitle == other.gameTitle && self.gameBinarySize == other.gameBinarySize
            && self.version == other.version && entries_equal(&self.files, &other.files)
    }
}

impl vstd::std_specs::cmp::PartialEqSpecImpl for GameManifestLocal {
    open spec fn obeys_eq_spec() -> bool {
        true
    }

    open spec fn eq_spec(&self, other: &Self) -> bool {
        self@ == other@
    }
}

/// The remote manifest: the immutable target state for one sync run.
pub struct GameManifestRemote {
    pub version: String,
    pub files: Vec<FileDetails>,
}

/// Mathematical image of a [`GameManifestRemote`].
pub ghost struct RemoteRec {
    pub version: Seq<char>,
    pub files: Seq<FileRec>,
}

impl View for GameManifestRemote {
    type V = RemoteRec;

    open spec fn view(&self) -> RemoteRec {
        RemoteRec { version: self.version@, files: views_of(self.files@) }
    }
}

/// Copies a vector of entries value for value.
pub fn clone_entries(v: &Vec<FileDetails>) -> (r: Vec<FileDetails>)
    ensures
        views_of(r@) == views_of(v@),
{
    let mut r: Vec<FileDetails> = Vec::new();
    let mut i: usize = 0;
    while i < v.len()
        invariant
            i <= v.len(),
            r@.len() == i,
            forall|j: int| 0 <= j < i ==> views_of(r@)[j] == views_of(v@)[j],
        decreases v.len() - i,
    {
        r.push(v[i].clone());
        i += 1;
    }
    proof {
        assert(views_of(r@) =~= views_of(v@));
    }
    r
}

/// Compares two entry vectors record by record.
pub fn entries_equal(a: &Vec<FileDetails>, b: &Vec<FileDetails>) -> (r: bool)
    ensures
        r == (views_of(a@) == views_of(b@)),
{
    if a.len() != b.len() {
        proof {
            assert(views_of(a@).len() != views_of(b@).len());
        }
        return false;
    }
    let mut i: usize = 0;
    while i < a.len()
        invariant
            i <= a.len(),
            a@.len() == b@.len(),
            forall|j: int| 0 <= j < i ==> views_of(a@)[j] == views_of(b@)[j],
        decreases a.len() - i,
    {
        if !(a[i] == b[i]) {
            proof {
                assert(views_of(a@)[i as int] != views_of(b@)[i as int]);
            }
            return false;
        }
        i += 1;
    }
    proof {
        assert(views_of(a@) =~= views_of(b@));
    }
    true
}

/// Whether some entry of `s` carries the name `name`.
pub open spec fn has_name(s: Seq<FileRec>, name: Seq<char>) -> bool {
    exists|i: int| 0 <= i < s.len() && s[i].name == name
}

/// No two entries of `s` share a name.
pub open spec fn unique_names(s: Seq<FileRec>) -> bool {
    forall|i: int, j: int| 0 <= i < j < s.len() ==> s[i].name != s[j].name
}

/// Duplicate removal with an explicit set of names already retained: keeps
/// the first occurrence of each name not yet seen, in order.
pub open spec fn dedup_rec(s: Seq<FileRec>, seen: Set<Seq<char>>) -> Seq<FileRec>
    decreases s.len(),
{
    if s.len() == 0 {
        Seq::<FileRec>::empty()
    } else if seen.contains(s[0].name) {
        dedup_rec(s.drop_first(), seen)
    } else {
        seq![s[0]] + dedup_rec(s.drop_first(), seen.insert(s[0].name))
    }
}

/// Duplicate removal by name: the first occurrence of each distinct name is
/// retained, later ones are dropped, and the order of first occurrences is
/// preserved.
pub open spec fn dedup_files(s: Seq<FileRec>) -> Seq<FileRec> {
    dedup_rec(s, Set::<Seq<char>>::empty())
}

/// Every entry that `dedup_rec` keeps has a name outside `seen`, and the kept
/// entries have pairwise distinct names.
proof fn lemma_dedup_rec_unique(s: Seq<FileRec>, seen: Set<Seq<char>>)
    ensures
        unique_names(dedup_rec(s, seen)),
        forall|i: int|
            0 <= i < dedup_rec(s, seen).len() ==> !seen.contains(#[trigger] dedup_rec(s, seen)[i].name),
    decreases s.len(),
{
    if s.len() == 0 {
    } else if seen.contains(s[0].name) {
        lemma_dedup_rec_unique(s.drop_first(), seen);
    } else {
        lemma_dedup_rec_unique(s.drop_first(), seen.insert(s[0].name));
        let rest = dedup_rec(s.drop_first(), seen.insert(s[0].name));
        let whole = dedup_rec(s, seen);
        assert(whole == seq![s[0]] + rest);
        assert forall|i: int, j: int| 0 <= i < j < whole.len() implies whole[i].name
            != whole[j].name by {
            if i == 0 {
                assert(whole[j] == rest[j - 1]);
                assert(!seen.insert(s[0].name).contains(rest[j - 1].name));
            } else {
                assert(whole[i] == rest[i - 1]);
                assert(whole[j] == rest[j - 1]);
            }
        }
        assert forall|i: int| 0 <= i < whole.len() implies !seen.contains(whole[i].name) by {
            if i > 0 {
                assert(whole[i] == rest[i - 1]);
                assert(!seen.insert(s[0].name).contains(rest[i - 1].name));
            }
        }
    }
}

/// On a sequence whose names are already distinct and disjoint from `seen`,
/// `dedup_rec` keeps everything.
proof fn lemma_dedup_rec_noop(s: Seq<FileRec>, seen: Set<Seq<char>>)
    requires
        unique_names(s),
        forall|i: int| 0 <= i < s.len() ==> !seen.contains(#[trigger] s[i].name),
    ensures
        dedup_rec(s, seen) == s,
    decreases s.len(),
{
    if s.len() == 0 {
        assert(dedup_rec(s, seen) =~= s);
    } else {
        let rest = s.drop_first();
        let seen2 = seen.insert(s[0].name);
        assert forall|i: int| 0 <= i < rest.len() implies !seen2.contains(
            #[trigger] rest[i].name,
        ) by {
            assert(rest[i] == s[i + 1]);
            assert(s[0].name != s[i + 1].name);
        }
        assert(unique_names(rest)) by {
            assert forall|i: int, j: int| 0 <= i < j < rest.len() implies rest[i].name
                != rest[j].name by {
                assert(rest[i] == s[i + 1]);
                assert(rest[j] == s[j + 1]);
            }
        }
        lemma_dedup_rec_noop(rest, seen2);
        assert(dedup_rec(s, seen) =~= s);
    }
}

/// Duplicate removal establishes the manifest's invariant: no two retained
/// entries share a name.
pub proof fn lemma_dedup_unique_names(s: Seq<FileRec>)
    ensures
        unique_names(dedup_files(s)),
{
    lemma_dedup_rec_unique(s, Set::<Seq<char>>::empty());
}

/// Running duplicate removal twice yields exactly the result of running it
/// once: the first pass already leaves one entry per distinct name, in the
/// order of first occurrence, and a second pass keeps all of them.
pub proof fn lemma_dedup_idempotent(s: Seq<FileRec>)
    ensures
        dedup_files(dedup_files(s)) == dedup_files(s),
{
    lemma_dedup_rec_unique(s, Set::<Seq<char>>::empty());
    lemma_dedup_rec_noop(dedup_files(s), Set::<Seq<char>>::empty());
}

/// The set of names carried by a sequence of records.
pub open spec fn name_set(s: Seq<FileRec>) -> Set<Seq<char>> {
    s.map_values(|f: FileRec| f.name).to_set()
}

/// Whether some entry of `v` carries exactly the name `name`.
pub fn contains_name(v: &Vec<FileDetails>, name: &String) -> (r: bool)
    ensures
        r == has_name(views_of(v@), name@),
{
    let mut i: usize = 0;
    while i < v.len()
        invariant
            i <= v.len(),
            forall|j: int| 0 <= j < i ==> views_of(v@)[j].name != name@,
        decreases v.len() - i,
    {
        if v[i].name == *name {
            proof {
                assert(views_of(v@)[i as int].name == name@);
            }
            return true;
        }
        i += 1;
    }
    false
}

/// Drops every entry whose name already occurred earlier in the list,
/// keeping the first occurrence of each distinct name in its place; the
/// manifest's metadata is untouched.
pub fn remove_duplicates(manifest: &mut GameManifestLocal)
    ensures
        final(manifest)@ == (LocalRec { files: dedup_files(old(manifest)@.files), ..old(manifest)@ }),
{
    let ghost full: Seq<FileRec> = views_of(manifest.files@);
    let mut kept: Vec<FileDetails> = Vec::new();
    let mut i: usize = 0;
    proof {
        assert(views_of(kept@) =~= Seq::<FileRec>::empty());
        assert(name_set(views_of(kept@)) =~= Set::<Seq<char>>::empty()) by {
            assert(views_of(kept@).map_values(|f: FileRec| f.name) =~= Seq::<Seq<char>>::empty());
            assert(Seq::<Seq<char>>::empty().to_set() =~= Set::<Seq<char>>::empty());
        }
        assert(full.skip(0) =~= full);
        assert(views_of(kept@) + dedup_rec(full, Set::<Seq<char>>::empty()) =~= dedup_files(full));
    }
    while i < manifest.files.len()
        invariant
            i <= manifest.files.len(),
            views_of(manifest.files@) == full,
            dedup_files(full) == views_of(kept@) + dedup_rec(
                full.skip(i as int),
                name_set(views_of(kept@)),
            ),
        decreases manifest.files.len() - i,
    {
        let ghost pre_kept = views_of(kept@);
        let ghost pre_seen = name_set(pre_kept);
        proof {
            assert(full.skip(i as int)[0] == full[i as int]);
            assert(full.skip(i as int).drop_first() =~= full.skip(i as int + 1));
            lemma_name_set_has(pre_kept, full[i as int].name);
        }
        let present = contains_name(&kept, &manifest.files[i].name);
        if !present {
            kept.push(manifest.files[i].clone());
            proof {
                assert(views_of(kept@) =~= pre_kept.push(full[i as int]));
                assert(name_set(views_of(kept@)) =~= pre_seen.insert(full[i as int].name)) by {
                    assert(views_of(kept@).map_values(|f: FileRec| f.name) =~= pre_kept.map_values(
                        |f: FileRec| f.name,
                    ).push(full[i as int].name));
                    lemma_to_set_push(pre_kept.map_values(|f: FileRec| f.name), full[i as int].name);
                }
                assert(views_of(kept@) + dedup_rec(full.skip(i as int + 1), name_set(views_of(kept@)))
                    =~= pre_kept + (seq![full[i as int]] + dedup_rec(
                    full.skip(i as int + 1),
                    pre_seen.insert(full[i as int].name),
                )));
            }
        }
        i += 1;
    }
    proof {
        assert(dedup_files(full) =~= views_of(kept@));
    }
    manifest.files = kept;
}

/// Pushing onto a sequence adds exactly that element to its set image.
proof fn lemma_to_set_push(s: Seq<Seq<char>>, x: Seq<char>)
    ensures
        s.push(x).to_set() == s.to_set().insert(x),
{
    assert forall|y: Seq<char>| s.push(x).to_set().contains(y) implies s.to_set().insert(
        x,
    ).contains(y) by {
        let i = choose|i: int| 0 <= i < s.push(x).len() && s.push(x)[i] == y;
        if i < s.len() {
            assert(s[i] == y);
        }
    }
    assert forall|y: Seq<char>| s.to_set().insert(x).contains(y) implies s.push(x).to_set().contains(
        y,
    ) by {
        if y == x {
            assert(s.push(x)[s.len() as int] == x);
        } else {
            let i = choose|i: int| 0 <= i < s.len() && s[i] == y;
            assert(s.push(x)[i] == y);
        }
    }
    assert(s.push(x).to_set() =~= s.to_set().insert(x));
}

/// Membership in the name set is exactly `has_name`.
proof fn lemma_name_set_has(s: Seq<FileRec>, name: Seq<char>)
    ensures
        name_set(s).contains(name) == has_name(s, name),
{
    let names = s.map_values(|f: FileRec| f.name);
    if has_name(s, name) {
        let i = choose|i: int| 0 <= i < s.len() && s[i].name == name;
        assert(names[i] == name);
        assert(names.to_set().contains(name));
    }
    if name_set(s).contains(name) {
        let i = choose|i: int| 0 <= i < names.len() && names[i] == name;
        assert(s[i].name == name);
    }
}

} // verus!
