//! The resolution of a configuration from an ordered list of candidate
//! paths.
//!
//! Candidates are tried in order. A path where nothing exists is skipped;
//! the first path that holds anything settles the whole resolution: an
//! unreadable file is an I/O failure, a file with permissions beyond
//! owner-read and owner-write is insecure, and otherwise the content must
//! parse and match the caller's shape. No candidate after the first
//! existing one is ever inspected.
//!
//! The filesystem itself is read by the caller: a [`Snapshot`] says what
//! each path held at the moment of the resolution.

use vstd::prelude::*;

use crate::json::Field;
use crate::json::JsonValue;
use crate::json::Record;
use crate::json::Shape;
use crate::json::decode;
use crate::json::decode_result;
use crate::parse::parse_hjson;
use crate::parse::parsed_hjson;
use crate::perm::is_secured_mode;
use crate::perm::secured_mode;
use crate::result::Error;

verus! {

/// What the filesystem holds at one path, as observed at resolve time.
#[derive(Debug)]
pub enum FileState {
    /// Nothing exists at the path.
    Absent,
    /// A file exists but opening or reading it fails for a reason other
    /// than nonexistence: the description of the failure.
    Unreadable(String),
    /// A file exists: its raw permission mode, and its content.
    File { mode: u32, content: String },
}

/// The filesystem as seen by one resolution: what each path holds. A path
/// that no entry names holds nothing.
#[derive(Debug)]
pub struct Snapshot {
    pub files: Vec<(String, FileState)>,
}

/// What a snapshot holds at a path: the state of the first entry with
/// that path, or nothing.
pub open spec fn state_of(files: Seq<(String, FileState)>, path: Seq<char>) -> FileState
    decreases files.len(),
{
    if files.len() == 0 {
        FileState::Absent
    } else if files[0].0@ == path {
        files[0].1
    } else {
        state_of(files.drop_first(), path)
    }
}

/// The position of the first candidate where anything exists, if any.
pub open spec fn first_present(cands: Seq<String>, files: Seq<(String, FileState)>) -> Option<
    int,
>
    decreases cands.len(),
{
    if cands.len() == 0 {
        None
    } else if !(state_of(files, cands[0]@) is Absent) {
        Some(0)
    } else {
        match first_present(cands.drop_first(), files) {
            Some(i) => Some(i + 1),
            None => None,
        }
    }
}

/// What a resolution must return. When no candidate exists the outcome is
/// `NotFound`; otherwise the first existing candidate settles it, and the
/// returned path is that candidate, verbatim.
pub open spec fn resolve_post(
    cands: Seq<String>,
    files: Seq<(String, FileState)>,
    fields: Seq<Field>,
    r: Result<(Record, String), Error>,
) -> bool {
    match first_present(cands, files) {
        None => r matches Err(Error::NotFound),
        Some(i) => {
            let path = cands[i];
            match state_of(files, path@) {
                FileState::Absent => false,
                FileState::Unreadable(d) => r matches Err(Error::Io(p, m)) && p@ == path@ && m@
                    == d@,
                FileState::File { mode, content } => {
                    if !secured_mode(mode) {
                        r matches Err(Error::Insecured(p, m)) && p@ == path@ && m == mode
                    } else {
                        match parsed_hjson(content@) {
                            Err(e) => r matches Err(Error::Deserialization(p, m)) && p@ == path@
                                && m@ == e,
                            Ok(v) => match decode_result(fields, v) {
                                Err(e) => r matches Err(Error::Deserialization(p, m)) && p@
                                    == path@ && m@ == e,
                                Ok(entries) => r matches Ok((rec, p)) && p@ == path@
                                    && rec.entries@ == entries,
                            },
                        }
                    }
                },
            }
        },
    }
}

impl Snapshot {
    /// What this snapshot holds at a path; `None` when no entry names it.
    pub fn lookup<'a>(&'a self, path: &String) -> (r: Option<&'a FileState>)
        ensures
            (match r {
                Some(st) => state_of(self.files@, path@) == *st,
                None => state_of(self.files@, path@) is Absent,
            }),
    {
        let n = self.files.len();
        let mut j: usize = 0;
        proof {
            assert(self.files@.skip(0) =~= self.files@);
        }
        while j < n
            invariant
                j <= n,
                n == self.files.len(),
                state_of(self.files@, path@) == state_of(self.files@.skip(j as int), path@),
            decreases n - j,
        {
            proof {
                assert(self.files@.skip(j as int)[0] == self.files@[j as int]);
            }
            let entry = &self.files[j];
            if entry.0.eq(path) {
                return Some(&entry.1);
            }
            proof {
                assert(self.files@.skip(j as int).drop_first() =~= self.files@.skip(j as int + 1));
            }
            j += 1;
        }
        None
    }
}

/// If every candidate before position `i` is absent and the candidate at
/// `i` is not, then `i` is the first present position.
proof fn lemma_first_present_at(cands: Seq<String>, files: Seq<(String, FileState)>, i: int)
    requires
        0 <= i < cands.len(),
        forall|k: int| 0 <= k < i ==> state_of(files, #[trigger] cands[k]@) is Absent,
        !(state_of(files, cands[i]@) is Absent),
    ensures
        first_present(cands, files) == Some(i),
    decreases i,
{
    if i > 0 {
        assert(state_of(files, cands[0]@) is Absent);
        assert forall|k: int| 0 <= k < i - 1 implies state_of(
            files,
            #[trigger] cands.drop_first()[k]@,
        ) is Absent by {
            assert(cands.drop_first()[k] == cands[k + 1]);
        }
        assert(cands.drop_first()[i - 1] == cands[i]);
        lemma_first_present_at(cands.drop_first(), files, i - 1);
    }
}

/// If every candidate is absent, no candidate is present.
proof fn lemma_first_present_all_absent(cands: Seq<String>, files: Seq<(String, FileState)>)
    requires
        forall|k: int| 0 <= k < cands.len() ==> state_of(files, #[trigger] cands[k]@) is Absent,
    ensures
        first_present(cands, files) is None,
    decreases cands.len(),
{
    if cands.len() > 0 {
        assert forall|k: int| 0 <= k < cands.drop_first().len() implies state_of(
            files,
            #[trigger] cands.drop_first()[k]@,
        ) is Absent by {
            assert(cands.drop_first()[k] == cands[k + 1]);
        }
        lemma_first_present_all_absent(cands.drop_first(), files);
    }
}

/// Try the candidate paths in order and load the first one that exists.
///
/// A candidate where nothing exists is skipped. The first existing
/// candidate settles the outcome: its file must be secured and its content
/// must parse and match the shape, and then the decoded configuration is
/// returned together with that candidate path, verbatim. An empty or
/// exhausted candidate list yields `Error::NotFound`.
pub fn read_jsonc(candidates: &Vec<String>, snapshot: &Snapshot, shape: &Shape) -> (r: Result<
    (Record, String),
    Error,
>)
    ensures
        resolve_post(candidates@, snapshot.files@, shape.fields@, r),
{
    let n = candidates.len();
    let mut i: usize = 0;
    while i < n
        invariant
            i <= n,
            n == candidates.len(),
            forall|k: int| 0 <= k < i ==> state_of(
                snapshot.files@,
                #[trigger] candidates@[k]@,
            ) is Absent,
        decreases n - i,
    {
        let path = &candidates[i];
        match snapshot.lookup(path) {
            None => {
                i += 1;
            },
            Some(st) => match st {
                FileState::Absent => {
                    i += 1;
                },
                FileState::Unreadable(d) => {
                    proof {
                        lemma_first_present_at(candidates@, snapshot.files@, i as int);
                    }
                    return Err(Error::Io(path.clone(), d.clone()));
                },
                FileState::File { mode, content } => {
                    proof {
                        lemma_first_present_at(candidates@, snapshot.files@, i as int);
                    }
                    if !is_secured_mode(*mode) {
                        return Err(Error::Insecured(path.clone(), *mode));
                    }
                    match parse_hjson(content) {
                        Err(m) => {
                            return Err(Error::Deserialization(path.clone(), m));
                        },
                        Ok(v) => match decode(shape, v) {
                            Err(m) => {
                                return Err(Error::Deserialization(path.clone(), m));
                            },
                            Ok(rec) => {
                                return Ok((rec, path.clone()));
                            },
                        },
                    }
                },
            },
        }
    }
    proof {
        lemma_first_present_all_absent(candidates@, snapshot.files@);
    }
    Err(Error::NotFound)
}

/// The first present position is in range, names a present candidate,
/// and everything before it is absent.
proof fn lemma_first_present_props(cands: Seq<String>, files: Seq<(String, FileState)>)
    ensures
        first_present(cands, files) matches Some(i) ==> 0 <= i < cands.len() && !(state_of(
            files,
            cands[i]@,
        ) is Absent) && (forall|k: int|
            0 <= k < i ==> state_of(files, #[trigger] cands[k]@) is Absent),
    decreases cands.len(),
{
    if cands.len() > 0 && state_of(files, cands[0]@) is Absent {
        lemma_first_present_props(cands.drop_first(), files);
        match first_present(cands.drop_first(), files) {
            Some(j) => {
                assert(cands.drop_first()[j] == cands[j + 1]);
                assert forall|k: int| 0 <= k < j + 1 implies state_of(
                    files,
                    #[trigger] cands[k]@,
                ) is Absent by {
                    if k > 0 {
                        assert(cands.drop_first()[k - 1] == cands[k]);
                    }
                }
            },
            None => {},
        }
    }
}

/// Candidates after the first existing one are never inspected: cutting
/// the list right after that candidate leaves every resolution outcome
/// unchanged.
pub proof fn lemma_later_candidates_never_inspected(
    cands: Seq<String>,
    files: Seq<(String, FileState)>,
    fields: Seq<Field>,
    i: int,
    r: Result<(Record, String), Error>,
)
    requires
        first_present(cands, files) == Some(i),
        resolve_post(cands, files, fields, r),
    ensures
        resolve_post(cands.take(i + 1), files, fields, r),
{
    lemma_first_present_props(cands, files);
    assert forall|k: int| 0 <= k < i implies state_of(
        files,
        #[trigger] cands.take(i + 1)[k]@,
    ) is Absent by {
        assert(cands.take(i + 1)[k] == cands[k]);
    }
    assert(cands.take(i + 1)[i] == cands[i]);
    lemma_first_present_at(cands.take(i + 1), files, i);
}

/// Whether two resolutions came out the same: the same kind, and the
/// same payload, compared by content.
pub open spec fn same_outcome(
    r1: Result<(Record, String), Error>,
    r2: Result<(Record, String), Error>,
) -> bool {
    match (r1, r2) {
        (Ok((rec1, p1)), Ok((rec2, p2))) => rec1.entries@ == rec2.entries@ && p1@ == p2@,
        (Err(Error::NotFound), Err(Error::NotFound)) => true,
        (Err(Error::Io(p1, m1)), Err(Error::Io(p2, m2))) => p1@ == p2@ && m1@ == m2@,
        (Err(Error::Insecured(p1, m1)), Err(Error::Insecured(p2, m2))) => p1@ == p2@ && m1 == m2,
        (Err(Error::Deserialization(p1, m1)), Err(Error::Deserialization(p2, m2))) => p1@ == p2@
            && m1@ == m2@,
        _ => false,
    }
}

/// Resolving is idempotent: two resolutions of the same candidates over
/// an unchanged filesystem and against the same shape come out the same.
pub proof fn lemma_resolve_idempotent(
    cands: Seq<String>,
    files: Seq<(String, FileState)>,
    fields: Seq<Field>,
    r1: Result<(Record, String), Error>,
    r2: Result<(Record, String), Error>,
)
    requires
        resolve_post(cands, files, fields, r1),
        resolve_post(cands, files, fields, r2),
    ensures
        same_outcome(r1, r2),
{
}

/// An empty candidate list resolves to `NotFound`, with no path attached.
pub proof fn lemma_resolve_empty(
    cands: Seq<String>,
    files: Seq<(String, FileState)>,
    fields: Seq<Field>,
    r: Result<(Record, String), Error>,
)
    requires
        cands.len() == 0,
        resolve_post(cands, files, fields, r),
    ensures
        r matches Err(Error::NotFound),
{
}

/// A candidate list where nothing exists at any path resolves to
/// `NotFound`.
pub proof fn lemma_resolve_nothing_exists(
    cands: Seq<String>,
    files: Seq<(String, FileState)>,
    fields: Seq<Field>,
    r: Result<(Record, String), Error>,
)
    requires
        forall|k: int| 0 <= k < cands.len() ==> state_of(files, #[trigger] cands[k]@) is Absent,
        resolve_post(cands, files, fields, r),
    ensures
        r matches Err(Error::NotFound),
{
    lemma_first_present_all_absent(cands, files);
}

/// When the first existing candidate is a secured file whose content
/// parses and matches the shape, the resolution succeeds, returns the
/// content's fields, and returns that candidate path verbatim.
pub proof fn lemma_resolve_secured_success(
    cands: Seq<String>,
    files: Seq<(String, FileState)>,
    fields: Seq<Field>,
    i: int,
    mode: u32,
    content: String,
    v: JsonValue,
    r: Result<(Record, String), Error>,
)
    requires
        0 <= i < cands.len(),
        forall|k: int| 0 <= k < i ==> state_of(files, #[trigger] cands[k]@) is Absent,
        state_of(files, cands[i]@) == (FileState::File { mode, content }),
        secured_mode(mode),
        parsed_hjson(content@) == Ok::<JsonValue, Seq<char>>(v),
        decode_result(fields, v) is Ok,
        resolve_post(cands, files, fields, r),
    ensures
        r matches Ok((rec, p)) && p@ == cands[i]@ && Ok::<Seq<(String, JsonValue)>, Seq<char>>(
            rec.entries@,
        ) == decode_result(fields, v),
{
    lemma_first_present_at(cands, files, i);
}

/// When the first existing candidate grants access beyond owner-read and
/// owner-write, the resolution fails as `Insecured`, with that path and
/// the file's raw permission bits.
pub proof fn lemma_resolve_insecure_rejected(
    cands: Seq<String>,
    files: Seq<(String, FileState)>,
    fields: Seq<Field>,
    i: int,
    mode: u32,
    content: String,
    r: Result<(Record, String), Error>,
)
    requires
        0 <= i < cands.len(),
        forall|k: int| 0 <= k < i ==> state_of(files, #[trigger] cands[k]@) is Absent,
        state_of(files, cands[i]@) == (FileState::File { mode, content }),
        !secured_mode(mode),
        resolve_post(cands, files, fields, r),
    ensures
        r matches Err(Error::Insecured(p, m)) && p@ == cands[i]@ && m == mode,
{
    lemma_first_present_at(cands, files, i);
}

/// When the first existing candidate is secured but its content does not
/// parse, the resolution fails as `Deserialization`, with that path and
/// the parser's description.
pub proof fn lemma_resolve_unparsable_rejected(
    cands: Seq<String>,
    files: Seq<(String, FileState)>,
    fields: Seq<Field>,
    i: int,
    mode: u32,
    content: String,
    e: Seq<char>,
    r: Result<(Record, String), Error>,
)
    requires
        0 <= i < cands.len(),
        forall|k: int| 0 <= k < i ==> state_of(files, #[trigger] cands[k]@) is Absent,
        state_of(files, cands[i]@) == (FileState::File { mode, content }),
        secured_mode(mode),
        parsed_hjson(content@) == Err::<JsonValue, Seq<char>>(e),
        resolve_post(cands, files, fields, r),
    ensures
        r matches Err(Error::Deserialization(p, m)) && p@ == cands[i]@ && m@ == e,
{
    lemma_first_present_at(cands, files, i);
}

} // verus!
