//! Where the canonical WIT bundle lives, decided step by step.

use vstd::prelude::*;
use vstd::utf8::encode_utf8;

use crate::bytes::append_bytes;

verus! {

/// A file counts as WIT source when its extension is exactly `wit`.
///
/// The extension of a file name is what follows its last `.`, provided some
/// byte precedes that dot; `.wit` alone is a hidden file with no extension.
pub open spec fn is_wit_file_name(name: Seq<u8>) -> bool {
    &&& name.len() > 4
    &&& name.subrange(name.len() - 4, name.len() as int) == wit_suffix()
}

/// The bytes of `.wit`: a dot followed by the ASCII letters `w`, `i`, `t`.
pub open spec fn wit_suffix() -> Seq<u8> {
    seq![0x2eu8, 0x77u8, 0x69u8, 0x74u8]
}

/// Whether `name`, the raw bytes of a file name, names a WIT source file.
pub fn has_wit_extension(name: &[u8]) -> (r: bool)
    ensures
        r == is_wit_file_name(name@),
{
    let n: usize = name.len();
    if n <= 4 {
        return false;
    }
    let r: bool = name[n - 4] == 0x2e && name[n - 3] == 0x77 && name[n - 2] == 0x69 && name[n - 1] == 0x74;
    proof {
        let tail = name@.subrange(n - 4, n as int);
        if r {
            assert(tail =~= wit_suffix());
        } else {
            assert(tail[0] == name@[n - 4]);
            assert(tail[1] == name@[n - 3]);
            assert(tail[2] == name@[n - 2]);
            assert(tail[3] == name@[n - 1]);
        }
    }
    r
}

/// The path separator, `/`, as a byte.
pub const SEPARATOR: u8 = 0x2f;

/// `rel`, a relative path, appended to `base` as `Path::join` appends it:
/// a separator goes between them unless `base` is empty or already ends in one.
pub open spec fn joined(base: Seq<u8>, rel: Seq<u8>) -> Seq<u8> {
    if base.len() == 0 || base.last() == SEPARATOR {
        base + rel
    } else {
        base + seq![SEPARATOR] + rel
    }
}


/// The bytes of `base` joined with the relative path `rel`.
pub fn join_path(base: &[u8], rel: &[u8]) -> (p: Vec<u8>)
    ensures
        p@ == joined(base@, rel@),
        base@.len() == 0 ==> p@ == rel@,
        base@.len() > 0 && base@.last() == 0x2fu8 ==> p@ == base@ + rel@,
        base@.len() > 0 && base@.last() != 0x2fu8 ==> p@ == base@ + seq![0x2fu8] + rel@,
{
    let mut p: Vec<u8> = Vec::new();
    append_bytes(&mut p, base);
    if base.len() > 0 && base[base.len() - 1] != SEPARATOR {
        p.push(SEPARATOR);
    }
    append_bytes(&mut p, rel);
    proof {
        if base@.len() == 0 || base@.last() == SEPARATOR {
            assert(p@ =~= base@ + rel@);
        } else {
            assert(p@ =~= base@ + seq![SEPARATOR] + rel@);
        }
    }
    p
}

/// How many places are searched for the canonical WIT root.
pub const CANDIDATE_COUNT: usize = 4;

/// The places searched for the canonical WIT root, relative to the crate's
/// manifest directory, in the order of preference:
/// the bundle that ships inside the published crate; the workspace root
/// seen from `crates/<this crate>`; the sibling ABI crate during local
/// development; the workspace seen from a `cargo package` verification
/// directory.
pub open spec fn candidate_suffix_text(index: int) -> Seq<char> {
    if index == 0 {
        "wit"@
    } else if index == 1 {
        "../../wit"@
    } else if index == 2 {
        "../greentic-interfaces/wit"@
    } else {
        "../../../crates/greentic-interfaces/wit"@
    }
}

/// The path of the candidate `index` for the manifest directory `dir`.
pub open spec fn wit_root_candidate(dir: Seq<u8>, index: int) -> Seq<u8> {
    joined(dir, encode_utf8(candidate_suffix_text(index)))
}

/// The relative path of the candidate `index`.
pub fn candidate_suffix(index: usize) -> (s: &'static str)
    requires
        index < CANDIDATE_COUNT,
    ensures
        s@ == candidate_suffix_text(index as int),
{
    if index == 0 {
        "wit"
    } else if index == 1 {
        "../../wit"
    } else if index == 2 {
        "../greentic-interfaces/wit"
    } else {
        "../../../crates/greentic-interfaces/wit"
    }
}

/// The path of the candidate `index` for the manifest directory `manifest_dir`.
pub fn candidate_root(manifest_dir: &[u8], index: usize) -> (p: Vec<u8>)
    requires
        index < CANDIDATE_COUNT,
    ensures
        p@ == wit_root_candidate(manifest_dir@, index as int),
{
    join_path(manifest_dir, candidate_suffix(index).as_bytes())
}

/// What the search for the WIT root does next, as values.
pub enum WitRootDecision {
    /// Find out whether this candidate holds any WIT file.
    Probe(Seq<u8>),
    /// This candidate is the root; canonicalise it.
    Select(Seq<u8>),
    /// No candidate holds a WIT file: the root cannot be located.
    Exhausted,
}

/// What the search for the WIT root does next.
pub enum WitRootStep {
    /// Find out whether this candidate holds any WIT file, and call again
    /// with the answer appended.
    Probe(Vec<u8>),
    /// This candidate is the root; canonicalise it.
    Select(Vec<u8>),
    /// No candidate holds a WIT file: the root cannot be located.
    Exhausted,
}

impl View for WitRootStep {
    type V = WitRootDecision;

    open spec fn view(&self) -> WitRootDecision {
        match self {
            WitRootStep::Probe(p) => WitRootDecision::Probe(p@),
            WitRootStep::Select(p) => WitRootDecision::Select(p@),
            WitRootStep::Exhausted => WitRootDecision::Exhausted,
        }
    }
}

/// The decision from candidate `index` on, given the answers `probed`:
/// candidates are taken in order; the first one without an answer is probed,
/// the first one answered yes is selected.
pub open spec fn decide_from(dir: Seq<u8>, probed: Seq<bool>, index: nat) -> WitRootDecision
    decreases CANDIDATE_COUNT - index,
{
    if index >= CANDIDATE_COUNT {
        WitRootDecision::Exhausted
    } else if index >= probed.len() {
        WitRootDecision::Probe(wit_root_candidate(dir, index as int))
    } else if probed[index as int] {
        WitRootDecision::Select(wit_root_candidate(dir, index as int))
    } else {
        decide_from(dir, probed, index + 1)
    }
}

/// What the search for the WIT root of the manifest directory `dir` does
/// next, where `probed[i]` tells whether candidate `i` holds a WIT file.
pub open spec fn wit_root_decision(dir: Seq<u8>, probed: Seq<bool>) -> WitRootDecision {
    decide_from(dir, probed, 0)
}

/// The next step in locating the canonical WIT root of the crate whose
/// manifest directory is `manifest_dir`, given what is known so far:
/// `probed[i]` tells whether candidate `i` holds any WIT file.
pub fn canonical_wit_root_from(manifest_dir: &[u8], probed: &[bool]) -> (step: WitRootStep)
    ensures
        step@ == wit_root_decision(manifest_dir@, probed@),
{
    let mut index: usize = 0;
    while index < CANDIDATE_COUNT
        invariant
            index <= CANDIDATE_COUNT,
            wit_root_decision(manifest_dir@, probed@) == decide_from(
                manifest_dir@,
                probed@,
                index as nat,
            ),
        decreases CANDIDATE_COUNT - index,
    {
        if index >= probed.len() {
            return WitRootStep::Probe(candidate_root(manifest_dir, index));
        }
        if probed[index] {
            return WitRootStep::Select(candidate_root(manifest_dir, index));
        }
        index = index + 1;
    }
    WitRootStep::Exhausted
}


/// No candidate before `index` was answered yes.
pub open spec fn none_found_before(probed: Seq<bool>, index: int) -> bool {
    forall|j: int| 0 <= j < index && j < probed.len() ==> !#[trigger] probed[j]
}

/// Skipping candidates answered no leaves the decision unchanged.
proof fn lemma_skip_unfound(dir: Seq<u8>, probed: Seq<bool>, from: nat, to: nat)
    requires
        from <= to <= CANDIDATE_COUNT,
        to <= probed.len(),
        forall|j: int| from <= j < to ==> !#[trigger] probed[j],
    ensures
        decide_from(dir, probed, from) == decide_from(dir, probed, to),
    decreases to - from,
{
    if from < to {
        lemma_skip_unfound(dir, probed, from + 1, to);
    }
}

/// The root that is selected is the first candidate, in the order of
/// preference, that holds a WIT file; while no answered candidate holds one,
/// the next unanswered candidate is probed; once every candidate has been
/// answered no, the search is exhausted.
pub proof fn lemma_root_is_first_candidate_with_wit(dir: Seq<u8>, probed: Seq<bool>)
    ensures
        match wit_root_decision(dir, probed) {
            WitRootDecision::Select(p) => exists|i: int|
                #![trigger probed[i]]
                0 <= i < CANDIDATE_COUNT && i < probed.len() && probed[i] && none_found_before(
                    probed,
                    i,
                ) && p == wit_root_candidate(dir, i),
            WitRootDecision::Probe(p) => probed.len() < CANDIDATE_COUNT && none_found_before(
                probed,
                probed.len() as int,
            ) && p == wit_root_candidate(dir, probed.len() as int),
            WitRootDecision::Exhausted => probed.len() >= CANDIDATE_COUNT && none_found_before(
                probed,
                CANDIDATE_COUNT as int,
            ),
        },
{
    lemma_decide_from_shape(dir, probed, 0);
}

proof fn lemma_decide_from_shape(dir: Seq<u8>, probed: Seq<bool>, index: nat)
    requires
        index <= CANDIDATE_COUNT,
        index <= probed.len(),
        none_found_before(probed, index as int),
    ensures
        match decide_from(dir, probed, index) {
            WitRootDecision::Select(p) => exists|i: int|
                #![trigger probed[i]]
                0 <= i < CANDIDATE_COUNT && i < probed.len() && probed[i] && none_found_before(
                    probed,
                    i,
                ) && p == wit_root_candidate(dir, i),
            WitRootDecision::Probe(p) => probed.len() < CANDIDATE_COUNT && none_found_before(
                probed,
                probed.len() as int,
            ) && p == wit_root_candidate(dir, probed.len() as int),
            WitRootDecision::Exhausted => probed.len() >= CANDIDATE_COUNT && none_found_before(
                probed,
                CANDIDATE_COUNT as int,
            ),
        },
    decreases CANDIDATE_COUNT - index,
{
    if index >= CANDIDATE_COUNT {
    } else if index >= probed.len() {
    } else if probed[index as int] {
        assert(probed[index as int]);
    } else {
        assert(none_found_before(probed, (index + 1) as int));
        lemma_decide_from_shape(dir, probed, index + 1);
    }
}

/// The WIT bundle shipped inside the crate is preferred over every workspace
/// location: once it is known to hold a WIT file, it is the root, whatever
/// the other candidates hold.
pub proof fn lemma_bundled_root_preferred(dir: Seq<u8>, probed: Seq<bool>)
    requires
        probed.len() > 0,
        probed[0],
    ensures
        wit_root_decision(dir, probed) == WitRootDecision::Select(joined(dir, encode_utf8("wit"@))),
{
}

/// Once a root is selected, further answers change nothing: no later
/// candidate can displace it.
pub proof fn lemma_selection_is_final(dir: Seq<u8>, probed: Seq<bool>, more: Seq<bool>)
    requires
        wit_root_decision(dir, probed) is Select,
    ensures
        wit_root_decision(dir, probed + more) == wit_root_decision(dir, probed),
{
    lemma_root_is_first_candidate_with_wit(dir, probed);
    let i: int = choose|i: int|
        #![trigger probed[i]]
        0 <= i < CANDIDATE_COUNT && i < probed.len() && probed[i] && none_found_before(probed, i)
            && wit_root_decision(dir, probed) == WitRootDecision::Select(wit_root_candidate(dir, i));
    let all = probed + more;
    assert(forall|j: int| 0 <= j <= i ==> all[j] == probed[j]);
    lemma_skip_unfound(dir, probed, 0, i as nat);
    lemma_skip_unfound(dir, all, 0, i as nat);
}

/// Answering a probe settles that candidate: a yes selects exactly the path
/// that was probed, and a no moves on to the next candidate in the order of
/// preference, or ends the search after the last one.
pub proof fn lemma_answer_to_probe(dir: Seq<u8>, probed: Seq<bool>, found: bool)
    requires
        wit_root_decision(dir, probed) is Probe,
    ensures
        found ==> wit_root_decision(dir, probed.push(true)) == WitRootDecision::Select(
            wit_root_decision(dir, probed)->Probe_0,
        ),
        !found && probed.len() + 1 < CANDIDATE_COUNT ==> wit_root_decision(dir, probed.push(false))
            == WitRootDecision::Probe(wit_root_candidate(dir, probed.len() + 1 as int)),
        !found && probed.len() + 1 == CANDIDATE_COUNT ==> wit_root_decision(
            dir,
            probed.push(false),
        ) == WitRootDecision::Exhausted,
{
    lemma_root_is_first_candidate_with_wit(dir, probed);
    let n: nat = probed.len();
    lemma_skip_unfound(dir, probed, 0, n);
    let yes = probed.push(true);
    let no = probed.push(false);
    assert(forall|j: int| 0 <= j < n ==> !#[trigger] yes[j]) by {
        assert(forall|j: int| 0 <= j < n ==> yes[j] == probed[j]);
    }
    assert(forall|j: int| 0 <= j < n + 1 ==> !#[trigger] no[j]) by {
        assert(forall|j: int| 0 <= j < n ==> no[j] == probed[j]);
    }
    lemma_skip_unfound(dir, yes, 0, n);
    lemma_skip_unfound(dir, no, 0, n + 1);
}


/// One entry of a directory listing, as the scan needs it.
pub struct DirEntry<P> {
    /// The entry's full path, handed back when the scan descends into it.
    pub path: P,
    /// The raw bytes of the entry's file name.
    pub file_name: Vec<u8>,
    /// Whether the entry is a directory (following symbolic links).
    pub is_dir: bool,
}

/// An entry that is a WIT source file.
pub open spec fn is_wit_file<P>(entry: DirEntry<P>) -> bool {
    !entry.is_dir && is_wit_file_name(entry.file_name@)
}

/// Whether some entry of `entries` is a WIT source file.
pub open spec fn lists_wit_file<P>(entries: Seq<DirEntry<P>>) -> bool {
    exists|i: int| 0 <= i < entries.len() && is_wit_file(#[trigger] entries[i])
}

/// The paths of the directories among `entries`, in listing order.
pub open spec fn subdirectories<P>(entries: Seq<DirEntry<P>>) -> Seq<P>
    decreases entries.len(),
{
    if entries.len() == 0 {
        Seq::empty()
    } else {
        let rest = subdirectories(entries.drop_first());
        if entries[0].is_dir {
            seq![entries[0].path] + rest
        } else {
            rest
        }
    }
}

/// What the search of a directory tree for WIT files does next.
pub enum ScanStep<P> {
    /// List this directory, and hand its entries to the next step.
    ReadDir(P),
    /// A WIT file was found: the tree holds WIT files.
    Found,
    /// Every directory was listed and none holds a WIT file.
    Exhausted,
}

/// A depth-first search of a directory tree for WIT files. Directories wait
/// on a stack; the one pushed last is listed first.
pub struct WitScan<P> {
    pending: Vec<P>,
}

impl<P> View for WitScan<P> {
    type V = Seq<P>;

    /// The directories still to be listed; the last is listed next.
    closed spec fn view(&self) -> Seq<P> {
        self.pending@
    }
}

/// The directories waiting after `listing` was read while `pending` waited.
pub open spec fn queued_after<P>(pending: Seq<P>, listing: Seq<DirEntry<P>>) -> Seq<P> {
    pending + subdirectories(listing)
}

impl<P> WitScan<P> {
    /// A scan of the tree rooted at `root`. Its first step, given an empty
    /// listing, hands out `root` itself.
    pub fn new(root: P) -> (scan: WitScan<P>)
        ensures
            scan@ == seq![root],
    {
        let mut pending: Vec<P> = Vec::new();
        pending.push(root);
        WitScan { pending }
    }

    /// Takes the listing of the directory handed out by the previous step
    /// (empty before the first step, and for a directory that could not be
    /// read), and says what to do next.
    pub fn step(&mut self, listing: Vec<DirEntry<P>>) -> (next: ScanStep<P>)
        ensures
            lists_wit_file(listing@) ==> next == ScanStep::<P>::Found && final(self)@ == old(self)@,
            !lists_wit_file(listing@) && queued_after(old(self)@, listing@).len() == 0 ==> next
                == ScanStep::<P>::Exhausted && final(self)@ == Seq::<P>::empty(),
            !lists_wit_file(listing@) && queued_after(old(self)@, listing@).len() > 0 ==> next
                == ScanStep::ReadDir(queued_after(old(self)@, listing@).last()) && final(self)@
                == queued_after(old(self)@, listing@).drop_last(),
            (exists|i: int|
                0 <= i < listing@.len() && !(#[trigger] listing@[i]).is_dir && is_wit_file_name(
                    listing@[i].file_name@,
                )) ==> next == ScanStep::<P>::Found,
            !(exists|i: int|
                0 <= i < listing@.len() && !(#[trigger] listing@[i]).is_dir && is_wit_file_name(
                    listing@[i].file_name@,
                )) ==> {
                let queued = old(self)@ + subdirectories(listing@);
                &&& queued.len() == 0 ==> next == ScanStep::<P>::Exhausted && final(self)@
                    == queued
                &&& queued.len() > 0 ==> next == ScanStep::ReadDir(queued.last()) && final(self)@
                    == queued.drop_last()
            },
    {
        let mut i: usize = 0;
        while i < listing.len()
            invariant
                i <= listing@.len(),
                forall|j: int| 0 <= j < i ==> !is_wit_file(#[trigger] listing@[j]),
            decreases listing@.len() - i,
        {
            if !listing[i].is_dir && has_wit_extension(listing[i].file_name.as_slice()) {
                assert(is_wit_file(listing@[i as int]));
                return ScanStep::Found;
            }
            i = i + 1;
        }
        let ghost all = listing@;
        let ghost before = self.pending@;
        let base: usize = self.pending.len();
        let mut rest = listing;
        while rest.len() > 0
            invariant
                base == before.len(),
                rest@.len() <= all.len(),
                rest@ == all.subrange(0, rest@.len() as int),
                self.pending@ == before + subdirectories(
                    all.subrange(rest@.len() as int, all.len() as int),
                ),
            decreases rest@.len(),
        {
            let k: usize = rest.len();
            let entry = rest.pop().unwrap();
            let ghost tail = all.subrange(k as int, all.len() as int);
            let ghost longer = all.subrange(k - 1, all.len() as int);
            assert(longer.drop_first() =~= tail);
            assert(longer[0] == entry);
            if entry.is_dir {
                self.pending.insert(base, entry.path);
                assert(self.pending@ =~= before + (seq![entry.path] + subdirectories(tail)));
            }
            assert(rest@ =~= all.subrange(0, rest@.len() as int));
        }
        assert(all.subrange(0, all.len() as int) =~= all);
        match self.pending.pop() {
            Some(dir) => ScanStep::ReadDir(dir),
            None => ScanStep::Exhausted,
        }
    }
}


/// A file name is a WIT file name exactly when it is some non-empty stem
/// followed by the four bytes `.wit` (`0x2e 0x77 0x69 0x74`), whatever the
/// stem's length or content.
pub proof fn lemma_wit_file_name_is_stem_dot_wit(name: Seq<u8>, stem: Seq<u8>)
    ensures
        stem.len() > 0 ==> is_wit_file_name(stem + seq![0x2eu8, 0x77u8, 0x69u8, 0x74u8]),
        is_wit_file_name(name) <==> (name.len() > 4 && name[name.len() - 4] == 0x2eu8 && name[name.len()
            - 3] == 0x77u8 && name[name.len() - 2] == 0x69u8 && name[name.len() - 1] == 0x74u8),
        is_wit_file_name(name) ==> name == name.subrange(0, name.len() - 4) + seq![
            0x2eu8,
            0x77u8,
            0x69u8,
            0x74u8,
        ],
{
    let dot_wit = seq![0x2eu8, 0x77u8, 0x69u8, 0x74u8];
    if stem.len() > 0 {
        let full = stem + dot_wit;
        assert(full.subrange(full.len() - 4, full.len() as int) =~= dot_wit);
    }
    if name.len() > 4 {
        let tail = name.subrange(name.len() - 4, name.len() as int);
        assert(tail[0] == name[name.len() - 4]);
        assert(tail[1] == name[name.len() - 3]);
        assert(tail[2] == name[name.len() - 2]);
        assert(tail[3] == name[name.len() - 1]);
        if name[name.len() - 4] == 0x2eu8 && name[name.len() - 3] == 0x77u8 && name[name.len() - 2]
            == 0x69u8 && name[name.len() - 1] == 0x74u8 {
            assert(tail =~= dot_wit);
        }
        if is_wit_file_name(name) {
            assert(name =~= name.subrange(0, name.len() - 4) + dot_wit);
        }
    }
}

/// A listing holds a WIT file exactly when one of its entries, at any
/// position from the first to the last, is a non-directory with a WIT file
/// name.
pub proof fn lemma_lists_wit_file_any_entry<P>(entries: Seq<DirEntry<P>>, i: int)
    ensures
        0 <= i < entries.len() && !entries[i].is_dir && is_wit_file_name(entries[i].file_name@)
            ==> lists_wit_file(entries),
        lists_wit_file(entries) ==> exists|j: int|
            0 <= j < entries.len() && !(#[trigger] entries[j]).is_dir && is_wit_file_name(
                entries[j].file_name@,
            ),
{
    if 0 <= i < entries.len() && !entries[i].is_dir && is_wit_file_name(entries[i].file_name@) {
        assert(is_wit_file(entries[i]));
    }
    if lists_wit_file(entries) {
        let j: int = choose|j: int| 0 <= j < entries.len() && is_wit_file(#[trigger] entries[j]);
        assert(!entries[j].is_dir && is_wit_file_name(entries[j].file_name@));
    }
}

/// The subdirectories of a listing: a single directory entry gives its path,
/// a single other entry gives nothing, and the subdirectories of two listings
/// one after the other are those of the first followed by those of the second.
pub proof fn lemma_subdirectories_in_listing_order<P>(
    a: Seq<DirEntry<P>>,
    b: Seq<DirEntry<P>>,
    e: DirEntry<P>,
)
    ensures
        subdirectories(Seq::<DirEntry<P>>::empty()) == Seq::<P>::empty(),
        e.is_dir ==> subdirectories(seq![e]) == seq![e.path],
        !e.is_dir ==> subdirectories(seq![e]) == Seq::<P>::empty(),
        subdirectories(a + b) == subdirectories(a) + subdirectories(b),
    decreases a.len(),
{
    let one = seq![e];
    assert(one.drop_first() =~= Seq::<DirEntry<P>>::empty());
    assert(subdirectories(Seq::<DirEntry<P>>::empty()) =~= Seq::<P>::empty());
    if a.len() == 0 {
        assert(a + b =~= b);
        assert(subdirectories(a) + subdirectories(b) =~= subdirectories(b));
    } else {
        lemma_subdirectories_in_listing_order(a.drop_first(), b, e);
        assert((a + b).drop_first() =~= a.drop_first() + b);
        assert((a + b)[0] == a[0]);
        if a[0].is_dir {
            assert(subdirectories(a + b) =~= seq![a[0].path] + (subdirectories(a.drop_first())
                + subdirectories(b)));
            assert(subdirectories(a + b) =~= subdirectories(a) + subdirectories(b));
        } else {
            assert(subdirectories(a + b) =~= subdirectories(a) + subdirectories(b));
        }
    }
}

/// Joining puts exactly one `/` (`0x2f`) between a non-empty base that does
/// not end in `/` and the relative part, whatever the base's length; a base
/// that ends in `/` is followed directly by the relative part, and an empty
/// base gives the relative part alone.
pub proof fn lemma_join_separator(base: Seq<u8>, rel: Seq<u8>)
    ensures
        base.len() > 0 && base.last() != 0x2fu8 ==> joined(base, rel) == base + seq![0x2fu8]
            + rel,
        base.len() > 0 && base.last() == 0x2fu8 ==> joined(base, rel) == base + rel,
        base.len() == 0 ==> joined(base, rel) == rel,
        joined(base, rel).subrange(0, base.len() as int) == base,
        joined(base, rel).subrange(joined(base, rel).len() - rel.len(), joined(base, rel).len() as int)
            == rel,
{
    if base.len() == 0 {
        assert(base + rel =~= rel);
    }
    let j = joined(base, rel);
    assert(j.subrange(0, base.len() as int) =~= base);
    assert(j.subrange(j.len() - rel.len(), j.len() as int) =~= rel);
}

/// The four candidate roots, for every manifest directory: the directory
/// joined with `wit`, `../../wit`, `../greentic-interfaces/wit` and
/// `../../../crates/greentic-interfaces/wit`, in that order.
pub proof fn lemma_candidate_roots(dir: Seq<u8>)
    ensures
        wit_root_candidate(dir, 0) == joined(dir, encode_utf8("wit"@)),
        wit_root_candidate(dir, 1) == joined(dir, encode_utf8("../../wit"@)),
        wit_root_candidate(dir, 2) == joined(dir, encode_utf8("../greentic-interfaces/wit"@)),
        wit_root_candidate(dir, 3) == joined(
            dir,
            encode_utf8("../../../crates/greentic-interfaces/wit"@),
        ),
{
}

} // verus!
