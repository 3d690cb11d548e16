use vstd::prelude::*;
use crate::classify::{normalize_id, normalized};
use crate::merge::{last_with_key, lemma_last_with_key_skips, lemma_merged_last_wins, merged, PotionSet};
use crate::potion::{PotionRecord, PotionView};

verus! {

/// A record of a content file as the codec decoded it.
#[derive(Debug, Clone, PartialEq, Eq)]
pub enum DecodedRecord {
    Potion(PotionRecord),
    /// A potion record without an identifier.
    UnnamedPotion,
    /// A record of another type.
    Other,
    /// A record that could not be decoded, and whether it is a potion record.
    Broken { potion: bool },
}

/// A content file: its name, the author in its header, its modification time in
/// seconds since the Unix epoch, and its records.
#[derive(Debug, Clone, PartialEq, Eq)]
pub struct ContentFile {
    pub name: String,
    pub author: String,
    pub modified: i64,
    pub records: Vec<DecodedRecord>,
}

#[derive(Debug, Clone, Copy, PartialEq, Eq, Structural)]
pub enum FileErrorKind {
    /// A potion record could not be decoded.
    Decode,
    /// A potion record has no identifier.
    MissingId,
    /// Two potions of one file have the same merge key.
    DuplicateId,
}

/// The first fatal problem of a file, at the given record.
#[derive(Debug, Clone, Copy, PartialEq, Eq, Structural)]
pub struct FileError {
    pub record: usize,
    pub kind: FileErrorKind,
}

#[derive(Debug, Clone, Copy, PartialEq, Eq, Structural)]
pub enum ScanError {
    /// A fatal problem in the file at this position of the load order.
    File { file: usize, error: FileError },
    /// No file that the output would be dated after holds a potion.
    NoPotions,
    /// The output's modification time would not fit in 64 bits.
    TimeOverflow,
}

/// The author that this tool writes into the files it makes.
pub open spec fn own_author() -> Seq<char> {
    "potions_balance"@
}

/// Seconds by which the output is dated after the latest file it draws on.
pub const OUTPUT_DELAY: i64 = 120;

pub open spec fn potion_key(r: DecodedRecord) -> Option<Seq<char>> {
    match r {
        DecodedRecord::Potion(p) => Some(normalized(p.id@)),
        _ => None,
    }
}

/// What is fatally wrong with record `i` of a file, given the records before it.
pub open spec fn record_error(recs: Seq<DecodedRecord>, i: int) -> Option<FileErrorKind> {
    match recs[i] {
        DecodedRecord::Broken { potion } => if potion {
            Some(FileErrorKind::Decode)
        } else {
            None
        },
        DecodedRecord::UnnamedPotion => Some(FileErrorKind::MissingId),
        DecodedRecord::Potion(p) => if exists|j: int|
            0 <= j < i && #[trigger] potion_key(recs[j]) == Some(normalized(p.id@)) {
            Some(FileErrorKind::DuplicateId)
        } else {
            None
        },
        DecodedRecord::Other => None,
    }
}

/// The first fatal problem among records `i ..` of a file.
pub open spec fn file_error_from(recs: Seq<DecodedRecord>, i: int) -> Option<FileError>
    decreases recs.len() - i,
{
    if i < 0 || i >= recs.len() {
        None
    } else {
        match record_error(recs, i) {
            Some(kind) => Some(FileError { record: i as usize, kind }),
            None => file_error_from(recs, i + 1),
        }
    }
}

/// The potions of a file, in order.
pub open spec fn file_potions(recs: Seq<DecodedRecord>) -> Seq<PotionView>
    decreases recs.len(),
{
    if recs.len() == 0 {
        Seq::empty()
    } else {
        let rest = file_potions(recs.drop_last());
        match recs.last() {
            DecodedRecord::Potion(p) => rest.push(p@),
            _ => rest,
        }
    }
}

fn same_text(a: &str, b: &str) -> (r: bool)
    ensures
        r == (a@ == b@),
{
    let n = a.unicode_len();
    if n != b.unicode_len() {
        return false;
    }
    let mut i: usize = 0;
    while i < n
        invariant
            i <= n,
            n == a@.len(),
            n == b@.len(),
            forall|j: int| 0 <= j < i ==> a@[j] == b@[j],
        decreases n - i,
    {
        if a.get_char(i) != b.get_char(i) {
            return false;
        }
        i = i + 1;
    }
    assert(a@ =~= b@);
    true
}

/// The author name that marks this tool's own output.
pub fn own_author_name() -> (s: &'static str)
    ensures
        s@ == own_author(),
{
    "potions_balance"
}

/// Whether a file's header names this tool as its author.
pub fn is_own_output(author: &str) -> (r: bool)
    ensures
        r == (author@ == own_author()),
{
    same_text(author, own_author_name())
}

pub open spec fn listed(seen: Seq<String>, k: Seq<char>) -> bool {
    exists|j: int| 0 <= j < seen.len() && #[trigger] seen[j]@ == k
}

pub open spec fn keyed_before(recs: Seq<DecodedRecord>, i: int, k: Seq<char>) -> bool {
    exists|j: int| 0 <= j < i && #[trigger] potion_key(recs[j]) == Some(k)
}

fn is_listed(seen: &Vec<String>, k: &String) -> (r: bool)
    ensures
        r == listed(seen@, k@),
{
    let mut j: usize = 0;
    while j < seen.len()
        invariant
            j <= seen.len(),
            forall|q: int| 0 <= q < j ==> seen@[q]@ != k@,
        decreases seen.len() - j,
    {
        if seen[j] == *k {
            assert(seen@[j as int]@ == k@);
            return true;
        }
        j = j + 1;
    }
    false
}

proof fn lemma_file_error_step(recs: Seq<DecodedRecord>, i: int)
    requires
        0 <= i < recs.len(),
        record_error(recs, i) is None,
    ensures
        file_error_from(recs, i) == file_error_from(recs, i + 1),
{
}

/// Checks a file's records for fatal problems; broken records of other types
/// are skipped.
pub fn check_file(recs: &Vec<DecodedRecord>) -> (r: Option<FileError>)
    ensures
        r == file_error_from(recs@, 0),
{
    let mut seen: Vec<String> = Vec::new();
    let mut i: usize = 0;
    while i < recs.len()
        invariant
            i <= recs.len(),
            file_error_from(recs@, 0) == file_error_from(recs@, i as int),
            forall|k: Seq<char>| #[trigger] listed(seen@, k) <==> keyed_before(recs@, i as int, k),
        decreases recs.len() - i,
    {
        match &recs[i] {
            DecodedRecord::Broken { potion } => {
                if *potion {
                    return Some(FileError { record: i, kind: FileErrorKind::Decode });
                }
            },
            DecodedRecord::UnnamedPotion => {
                return Some(FileError { record: i, kind: FileErrorKind::MissingId });
            },
            DecodedRecord::Potion(p) => {
                let k = normalize_id(p.id.as_str());
                if is_listed(&seen, &k) {
                    proof {
                        assert(keyed_before(recs@, i as int, k@));
                        let w = choose|w: int|
                            0 <= w < i && #[trigger] potion_key(recs@[w]) == Some(k@);
                        assert(potion_key(recs@[w]) == Some(k@));
                        assert(record_error(recs@, i as int) == Some(FileErrorKind::DuplicateId));
                    }
                    return Some(FileError { record: i, kind: FileErrorKind::DuplicateId });
                }
                proof {
                    assert(!listed(seen@, k@));
                    assert(!keyed_before(recs@, i as int, k@));
                }
                let ghost old_seen = seen@;
                seen.push(k);
                proof {
                    assert forall|q: Seq<char>| #[trigger] listed(seen@, q) <==> keyed_before(
                        recs@,
                        i + 1,
                        q,
                    ) by {
                        if listed(seen@, q) {
                            let j = choose|j: int| 0 <= j < seen.len() && #[trigger] seen@[j]@ == q;
                            if j < old_seen.len() {
                                assert(old_seen[j]@ == q);
                                assert(listed(old_seen, q));
                            } else {
                                assert(potion_key(recs@[i as int]) == Some(q));
                            }
                        }
                        if keyed_before(recs@, i + 1, q) {
                            let j = choose|j: int| 0 <= j < i + 1 && #[trigger] potion_key(recs@[j]) == Some(q);
                            if j < i {
                                assert(keyed_before(recs@, i as int, q));
                                assert(listed(old_seen, q));
                                let s = choose|s: int| 0 <= s < old_seen.len() && #[trigger] old_seen[s]@ == q;
                                assert(seen@[s]@ == q);
                            } else {
                                assert(seen@[old_seen.len() as int]@ == q);
                            }
                        }
                    }
                }
            },
            DecodedRecord::Other => {},
        }
        proof {
            lemma_file_error_step(recs@, i as int);
        }
        i = i + 1;
    }
    None
}

proof fn lemma_merged_push(m: Map<Seq<char>, PotionView>, s: Seq<PotionView>, v: PotionView)
    ensures
        merged(m, s.push(v)) == merged(m, s).insert(normalized(v.id), v),
{
    assert(s.push(v).drop_last() =~= s);
}

/// Merging two runs of potions one after the other is merging their concatenation.
pub proof fn lemma_merged_concat(m: Map<Seq<char>, PotionView>, a: Seq<PotionView>, b: Seq<PotionView>)
    ensures
        merged(merged(m, a), b) == merged(m, a + b),
    decreases b.len(),
{
    if b.len() == 0 {
        assert(a + b =~= a);
    } else {
        lemma_merged_concat(m, a, b.drop_last());
        assert((a + b).drop_last() =~= a + b.drop_last());
    }
}

proof fn lemma_file_potions_step(recs: Seq<DecodedRecord>, i: int)
    requires
        0 <= i < recs.len(),
    ensures
        file_potions(recs.take(i + 1)) == match recs[i] {
            DecodedRecord::Potion(p) => file_potions(recs.take(i)).push(p@),
            _ => file_potions(recs.take(i)),
        },
{
    assert(recs.take(i + 1).drop_last() =~= recs.take(i));
}

/// Merges the potions of a file's records, in order, and tells whether there
/// were any.
fn merge_records(set: &mut PotionSet, recs: Vec<DecodedRecord>) -> (r: bool)
    requires
        old(set).wf(),
    ensures
        final(set).wf(),
        final(set).view() == merged(old(set).view(), file_potions(recs@)),
        r == (file_potions(recs@).len() > 0),
{
    let ghost orig = recs@;
    let mut rest = recs;
    let mut found = false;
    let ghost mut i: int = 0;
    assert(orig.take(0) =~= Seq::<DecodedRecord>::empty());
    while rest.len() > 0
        invariant
            0 <= i <= orig.len(),
            rest@ == orig.skip(i),
            set.wf(),
            set.view() == merged(old(set).view(), file_potions(orig.take(i))),
            found == (file_potions(orig.take(i)).len() > 0),
        decreases rest.len(),
    {
        let r = rest.remove(0);
        proof {
            assert(orig[i] == r);
            lemma_file_potions_step(orig, i);
        }
        match r {
            DecodedRecord::Potion(p) => {
                proof {
                    lemma_merged_push(old(set).view(), file_potions(orig.take(i)), p@);
                }
                set.insert(p);
                found = true;
            },
            _ => {},
        }
        proof {
            i = i + 1;
            assert(rest@ =~= orig.skip(i));
        }
    }
    assert(orig.take(i) =~= orig);
    found
}

/// Whether a file takes part in a scan: this tool's own output is skipped when
/// `skip_own` is set.
pub open spec fn counted(f: ContentFile, skip_own: bool) -> bool {
    !(skip_own && f.author@ == own_author())
}

/// Reads one content file into the merged potions: the file's potions override
/// earlier ones with the same key. Tells whether the file has potions. On an
/// error, or for this tool's own output when `skip_own` is set, nothing is merged.
pub fn collect_file(set: &mut PotionSet, file: ContentFile, skip_own: bool) -> (r: Result<
    bool,
    FileError,
>)
    requires
        old(set).wf(),
    ensures
        final(set).wf(),
        !counted(file, skip_own) ==> r == Ok::<bool, FileError>(false) && final(set).view()
            == old(set).view(),
        counted(file, skip_own) ==> match file_error_from(file.records@, 0) {
            Some(e) => r == Err::<bool, FileError>(e) && final(set).view() == old(set).view(),
            None => r == Ok::<bool, FileError>(file_potions(file.records@).len() > 0)
                && final(set).view() == merged(old(set).view(), file_potions(file.records@)),
        },
{
    if skip_own && is_own_output(file.author.as_str()) {
        return Ok(false);
    }
    if let Some(e) = check_file(&file.records) {
        return Err(e);
    }
    Ok(merge_records(set, file.records))
}

/// What a scan has found: the merged potions and the time to date the output at.
pub struct ScanOutcome {
    pub potions: PotionSet,
    pub output_time: i64,
}

/// The first fatal problem among files `i ..` that take part in a scan.
pub open spec fn first_scan_error(files: Seq<ContentFile>, skip_own: bool, i: int) -> Option<
    ScanError,
>
    decreases files.len() - i,
{
    if i < 0 || i >= files.len() {
        None
    } else if counted(files[i], skip_own) && file_error_from(files[i].records@, 0) is Some {
        Some(
            ScanError::File {
                file: i as usize,
                error: file_error_from(files[i].records@, 0)->Some_0,
            },
        )
    } else {
        first_scan_error(files, skip_own, i + 1)
    }
}

/// The potions of the files that take part in a scan, in load order.
pub open spec fn scanned(files: Seq<ContentFile>, skip_own: bool) -> Seq<PotionView>
    decreases files.len(),
{
    if files.len() == 0 {
        Seq::empty()
    } else if counted(files.last(), skip_own) {
        scanned(files.drop_last(), skip_own) + file_potions(files.last().records@)
    } else {
        scanned(files.drop_last(), skip_own)
    }
}

/// Whether the output is dated after a file: it has potions and is not this
/// tool's own output.
pub open spec fn dates_output(f: ContentFile) -> bool {
    f.author@ != own_author() && file_potions(f.records@).len() > 0
}

/// The latest modification time among the files that date the output.
pub open spec fn latest(files: Seq<ContentFile>) -> Option<i64>
    decreases files.len(),
{
    if files.len() == 0 {
        None
    } else {
        let before = latest(files.drop_last());
        let f = files.last();
        if dates_output(f) {
            match before {
                Some(t) => Some(if t < f.modified { f.modified } else { t }),
                None => Some(f.modified),
            }
        } else {
            before
        }
    }
}

proof fn lemma_scan_step(files: Seq<ContentFile>, skip_own: bool, i: int)
    requires
        0 <= i < files.len(),
    ensures
        files.take(i + 1).drop_last() == files.take(i),
        files.take(i + 1).last() == files[i],
{
    assert(files.take(i + 1).drop_last() =~= files.take(i));
}

/// Scans content files in load order: merges their potions and dates the output
/// two minutes after the latest file that dates it.
pub fn scan_files(files: Vec<ContentFile>, skip_own: bool) -> (r: Result<ScanOutcome, ScanError>)
    ensures
        first_scan_error(files@, skip_own, 0) is Some ==> r == Err::<ScanOutcome, ScanError>(
            first_scan_error(files@, skip_own, 0)->Some_0,
        ),
        first_scan_error(files@, skip_own, 0) is None && latest(files@) is None ==> r == Err::<
            ScanOutcome,
            ScanError,
        >(ScanError::NoPotions),
        first_scan_error(files@, skip_own, 0) is None && latest(files@) is Some && latest(
            files@,
        )->Some_0 > i64::MAX - OUTPUT_DELAY ==> r == Err::<ScanOutcome, ScanError>(
            ScanError::TimeOverflow,
        ),
        first_scan_error(files@, skip_own, 0) is None && latest(files@) is Some && latest(
            files@,
        )->Some_0 <= i64::MAX - OUTPUT_DELAY ==> r is Ok && r->Ok_0.output_time == latest(
            files@,
        )->Some_0 + OUTPUT_DELAY && r->Ok_0.potions.wf() && r->Ok_0.potions.view() == merged(
            Map::empty(),
            scanned(files@, skip_own),
        ),
{
    let ghost orig = files@;
    let mut rest = files;
    let mut set = PotionSet::new();
    let mut max: Option<i64> = None;
    let mut i: usize = 0;
    let n = rest.len();
    assert(orig.take(0) =~= Seq::<ContentFile>::empty());
    while rest.len() > 0
        invariant
            i <= orig.len(),
            orig.len() == n,
            orig == files@,
            rest@ == orig.skip(i as int),
            set.wf(),
            set.view() == merged(Map::empty(), scanned(orig.take(i as int), skip_own)),
            max == latest(orig.take(i as int)),
            first_scan_error(orig, skip_own, 0) == first_scan_error(orig, skip_own, i as int),
        decreases rest.len(),
    {
        let f = rest.remove(0);
        proof {
            assert(orig[i as int] == f);
            lemma_scan_step(orig, skip_own, i as int);
        }
        let own = is_own_output(f.author.as_str());
        let modified = f.modified;
        let ghost fv = f;
        let ghost before = set.view();
        match collect_file(&mut set, f, skip_own) {
            Err(e) => {
                proof {
                    assert(counted(fv, skip_own));
                    assert(file_error_from(fv.records@, 0) == Some(e));
                    assert(first_scan_error(orig, skip_own, i as int) == Some(
                        ScanError::File { file: i, error: e },
                    ));
                    assert(first_scan_error(orig, skip_own, 0) == Some(
                        ScanError::File { file: i, error: e },
                    ));
                }
                return Err(ScanError::File { file: i, error: e });
            },
            Ok(has) => {
                proof {
                    if counted(fv, skip_own) {
                        lemma_merged_concat(
                            Map::empty(),
                            scanned(orig.take(i as int), skip_own),
                            file_potions(fv.records@),
                        );
                    }
                }
                if has && !own {
                    max = match max {
                        Some(t) => Some(if t < modified { modified } else { t }),
                        None => Some(modified),
                    };
                }
                proof {
                    if !counted(fv, skip_own) {
                        assert(!dates_output(fv));
                    }
                }
            },
        }
        i = i + 1;
        proof {
            assert(rest@ =~= orig.skip(i as int));
        }
    }
    assert(orig.take(i as int) =~= orig);
    match max {
        None => Err(ScanError::NoPotions),
        Some(t) => {
            if t > i64::MAX - OUTPUT_DELAY {
                Err(ScanError::TimeOverflow)
            } else {
                Ok(ScanOutcome { potions: set, output_time: t + OUTPUT_DELAY })
            }
        },
    }
}

/// This tool's own output never dates the output of a scan, and, when
/// `skip_own` is set, none of its potions are merged and none of its records
/// can fail the scan, wherever it stands in the load order.
pub proof fn lemma_own_output_ignored(a: Seq<ContentFile>, f: ContentFile, b: Seq<ContentFile>)
    requires
        f.author@ == own_author(),
    ensures
        latest(a + seq![f] + b) == latest(a + b),
        scanned(a + seq![f] + b, true) == scanned(a + b, true),
    decreases b.len(),
{
    if b.len() == 0 {
        assert(a + seq![f] + b =~= a.push(f));
        assert(a.push(f).drop_last() =~= a);
        assert(a + b =~= a);
    } else {
        lemma_own_output_ignored(a, f, b.drop_last());
        assert((a + seq![f] + b).drop_last() =~= a + seq![f] + b.drop_last());
        assert((a + b).drop_last() =~= a + b.drop_last());
    }
}

/// Scanning files one run after another is scanning their concatenation.
pub proof fn lemma_scanned_concat(a: Seq<ContentFile>, b: Seq<ContentFile>, skip_own: bool)
    ensures
        scanned(a + b, skip_own) == scanned(a, skip_own) + scanned(b, skip_own),
    decreases b.len(),
{
    if b.len() == 0 {
        assert(a + b =~= a);
        assert(scanned(a, skip_own) + scanned(b, skip_own) =~= scanned(a, skip_own));
    } else {
        lemma_scanned_concat(a, b.drop_last(), skip_own);
        assert((a + b).drop_last() =~= a + b.drop_last());
        if counted(b.last(), skip_own) {
            assert(scanned(a, skip_own) + scanned(b, skip_own) =~= scanned(a, skip_own) + scanned(
                b.drop_last(),
                skip_own,
            ) + file_potions(b.last().records@));
        } else {
            assert(scanned(a, skip_own) + scanned(b, skip_own) =~= scanned(a, skip_own) + scanned(
                b.drop_last(),
                skip_own,
            ));
        }
    }
}

/// Whether a file defines a potion with merge key `k`.
pub open spec fn defines(f: ContentFile, k: Seq<char>) -> bool {
    exists|i: int|
        0 <= i < file_potions(f.records@).len() && normalized(
            #[trigger] file_potions(f.records@)[i].id,
        ) == k
}

/// Override resolution: the potion that a scan resolves key `k` to is the last
/// one with that key in load order, and a file that does not define `k`,
/// inserted anywhere in the load order, leaves what `k` resolves to unchanged.
pub proof fn lemma_override_resolution(
    a: Seq<ContentFile>,
    f: ContentFile,
    b: Seq<ContentFile>,
    skip_own: bool,
    k: Seq<char>,
)
    requires
        !defines(f, k),
    ensures
        last_with_key(scanned(a + b, skip_own), k) matches Some(v) ==> merged(
            Map::empty(),
            scanned(a + b, skip_own),
        ).contains_key(k) && merged(Map::empty(), scanned(a + b, skip_own))[k] == v,
        last_with_key(scanned(a + b, skip_own), k) is None ==> !merged(
            Map::empty(),
            scanned(a + b, skip_own),
        ).contains_key(k),
        merged(Map::empty(), scanned(a + seq![f] + b, skip_own)).contains_key(k) == merged(
            Map::empty(),
            scanned(a + b, skip_own),
        ).contains_key(k),
        merged(Map::empty(), scanned(a + b, skip_own)).contains_key(k) ==> merged(
            Map::empty(),
            scanned(a + seq![f] + b, skip_own),
        )[k] == merged(Map::empty(), scanned(a + b, skip_own))[k],
{
    let m = Map::<Seq<char>, PotionView>::empty();
    lemma_scanned_concat(a, b, skip_own);
    lemma_scanned_concat(a + seq![f], b, skip_own);
    lemma_scanned_concat(a, seq![f], skip_own);
    let sf = scanned(seq![f], skip_own);
    assert(seq![f].drop_last() =~= Seq::<ContentFile>::empty());
    assert(seq![f].last() == f);
    assert(scanned(Seq::<ContentFile>::empty(), skip_own) == Seq::<PotionView>::empty());
    if counted(f, skip_own) {
        assert(sf =~= file_potions(f.records@));
    } else {
        assert(sf =~= Seq::<PotionView>::empty());
    }
    assert forall|i: int| 0 <= i < sf.len() implies normalized(#[trigger] sf[i].id) != k by {
        if counted(f, skip_own) {
            assert(!defines(f, k));
        }
    }
    let sa = scanned(a, skip_own);
    let sb = scanned(b, skip_own);
    lemma_last_with_key_skips(sa, sf, sb, k);
    assert(scanned(a + seq![f] + b, skip_own) == sa + sf + sb);
    lemma_merged_last_wins(m, sa + sb, k);
    lemma_merged_last_wins(m, sa + sf + sb, k);
}

} // verus!
