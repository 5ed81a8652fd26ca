//! The read path of an opened store: partition catalog, point lookup, and
//! scan validation.
//!
//! The storage engine itself does disk I/O and lives outside this library;
//! callers hand its raw results in as plain values. Everything that is decided
//! about those values — which partition names resolve, when a lookup is
//! `NotFound`, how a scanned record's key is validated and decoded — is
//! verified here.

use vstd::prelude::*;

verus! {

use vstd::utf8::{valid_utf8, decode_utf8};
use crate::classify::{is_valid_utf8, decode_valid_utf8};
use crate::text::str_eq;

/// Failure of a point lookup or of resolving a partition name.
#[derive(Debug)]
pub enum LookupError {
    /// The key is absent from the partition.
    NotFound,
    /// The named partition is not among the store's partitions.
    UnknownPartition,
    /// The engine itself failed; the message is the engine's own.
    Engine(String),
}

/// Failure of a whole-partition scan: a record key that is not UTF-8 makes
/// the traversal unrecoverable, rather than being skipped or substituted.
#[derive(Clone, Copy, PartialEq, Eq, Structural, Debug)]
pub enum ScanError {
    InvalidKey,
}

/// Failure to open a store at some path, with the engine's message.
#[derive(Debug)]
pub struct OpenError {
    msg: String,
}

impl OpenError {
    /// The message's characters.
    pub closed spec fn spec_message(&self) -> Seq<char> {
        self.msg@
    }

    /// The engine's human-readable description of why the open failed.
    pub fn message(&self) -> (m: &String)
        ensures
            m@ == self.spec_message(),
    {
        &self.msg
    }

    /// Wrap an engine message as an open failure.
    pub fn new(msg: String) -> (e: OpenError)
        ensures
            e.spec_message() == msg@,
    {
        OpenError { msg }
    }
}

/// One key/value pair read out of a partition: a decoded key and the raw,
/// fully owned value bytes.
#[derive(Debug)]
pub struct Record {
    pub key: String,
    pub value: Vec<u8>,
}

impl View for Record {
    type V = (Seq<char>, Seq<u8>);

    open spec fn view(&self) -> (Seq<char>, Seq<u8>) {
        (self.key@, self.value@)
    }
}

impl DeepView for Record {
    type V = (Seq<char>, Seq<u8>);

    open spec fn deep_view(&self) -> (Seq<char>, Seq<u8>) {
        self.view()
    }
}

/// The partitions an opened store was found to contain.
pub struct StoreCatalog {
    names: Vec<String>,
}

impl StoreCatalog {
    /// The partition names, in the order the engine reported them.
    pub closed spec fn partitions(&self) -> Seq<Seq<char>> {
        self.names.deep_view()
    }

    /// Record the partition names the engine discovered at open time.
    pub fn new(names: Vec<String>) -> (s: StoreCatalog)
        ensures
            s.partitions() == names.deep_view(),
    {
        StoreCatalog { names }
    }

    /// The discovered partition names, in the engine's reported order.
    pub fn list_partitions(&self) -> (r: &Vec<String>)
        ensures
            r.deep_view() == self.partitions(),
    {
        &self.names
    }

    /// Resolve a partition name: its position when present, and
    /// `UnknownPartition` exactly when the name was not discovered.
    pub fn find_partition(&self, name: &str) -> (r: Result<usize, LookupError>)
        ensures
            r is Ok <==> self.partitions().contains(name@),
            r is Ok ==> r->Ok_0 < self.partitions().len() && self.partitions()[r->Ok_0 as int]
                == name@,
            r is Err ==> r->Err_0 matches LookupError::UnknownPartition,
    {
        let len = self.names.len();
        for i in 0..len
            invariant
                len == self.names@.len(),
                self.partitions() == self.names.deep_view(),
                forall|j: int| 0 <= j < i ==> self.partitions()[j] != name@,
        {
            if str_eq(self.names[i].as_str(), name) {
                proof {
                    assert(self.partitions()[i as int] == name@);
                    assert(self.partitions().contains(name@));
                }
                return Ok(i);
            }
        }
        Err(LookupError::UnknownPartition)
    }
}

/// What a point lookup returns for each value the engine can hand back:
/// the bytes when the key was present, `NotFound` when the engine found
/// nothing, and the engine's own message when it failed.
pub fn lookup_outcome(raw: Result<Option<Vec<u8>>, String>) -> (r: Result<Vec<u8>, LookupError>)
    ensures
        raw matches Ok(o) ==> (match o {
            Some(v) => r matches Ok(w) && w == v,
            None => r matches Err(LookupError::NotFound),
        }),
        raw matches Err(m) ==> r matches Err(LookupError::Engine(n)) && n == m,
{
    match raw {
        Ok(Some(v)) => Ok(v),
        Ok(None) => Err(LookupError::NotFound),
        Err(m) => Err(LookupError::Engine(m)),
    }
}

/// Whether every key of a raw record sequence is valid UTF-8.
pub open spec fn keys_decodable(recs: Seq<(Seq<u8>, Seq<u8>)>) -> bool {
    forall|i: int| 0 <= i < recs.len() ==> valid_utf8(#[trigger] recs[i].0)
}

/// The raw records with every key decoded.
pub open spec fn decoded_records(recs: Seq<(Seq<u8>, Seq<u8>)>) -> Seq<(Seq<char>, Seq<u8>)> {
    recs.map(|_i: int, r: (Seq<u8>, Seq<u8>)| (decode_utf8(r.0), r.1))
}

/// Everything a scan's outcome says about the raw records it was given:
/// it succeeds exactly when every key decodes, the successful result is the
/// key-decoded record sequence in unchanged order, and the only failure is
/// `InvalidKey`.
pub open spec fn scan_post(raw: Seq<(Seq<u8>, Seq<u8>)>, r: Result<Vec<Record>, ScanError>) -> bool {
    &&& (r is Ok <==> keys_decodable(raw))
    &&& (r is Ok ==> r->Ok_0.deep_view() == decoded_records(raw))
    &&& (r is Err ==> r->Err_0 == ScanError::InvalidKey)
}

/// Turn the raw records an engine cursor yielded into validated records.
///
/// Keys are checked to be UTF-8 here, at read time; one bad key fails the
/// whole traversal. Values are passed through untouched.
pub fn scan_outcome(raw: &Vec<(Vec<u8>, Vec<u8>)>) -> (r: Result<Vec<Record>, ScanError>)
    ensures
        scan_post(raw.deep_view(), r),
{
    let mut out: Vec<Record> = Vec::new();
    let len = raw.len();
    proof {
        assert(out.deep_view() =~= decoded_records(raw.deep_view().take(0)));
    }
    for i in 0..len
        invariant
            len == raw@.len(),
            out.deep_view() == decoded_records(raw.deep_view().take(i as int)),
            forall|j: int| 0 <= j < i ==> valid_utf8(#[trigger] raw.deep_view()[j].0),
    {
        let key_bytes: &Vec<u8> = &raw[i].0;
        proof {
            assert(raw.deep_view()[i as int].0 =~~= key_bytes@);
            assert(raw.deep_view()[i as int].1 =~~= raw@[i as int].1@);
        }
        if is_valid_utf8(key_bytes.as_slice()) {
            let s = decode_valid_utf8(key_bytes.as_slice());
            let rec = Record { key: s.to_owned(), value: vstd::slice::slice_to_vec(
                raw[i].1.as_slice(),
            ) };
            let ghost pre = out@;
            let ghost pre_deep = out.deep_view();
            let ghost rec_view = rec.deep_view();
            proof {
                assert(pre_deep == decoded_records(raw.deep_view().take(i as int)));
                assert(raw.deep_view().len() == len);
                assert(decoded_records(raw.deep_view().take(i as int)).len() == i as int);
                assert(pre_deep.len() == pre.len());
                assert(pre.len() == i as int);
            }
            out.push(rec);
            proof {
                let dv = raw.deep_view();
                let want = decoded_records(dv.take(i + 1));
                assert(rec_view.0 == decode_utf8(dv[i as int].0));
                assert(rec_view.1 == dv[i as int].1);
                assert(out@ == pre.push(rec));
                assert forall|j: int| 0 <= j < out@.len() implies out.deep_view()[j]
                    == want[j] by {
                    if j < i {
                        assert(out@[j] == pre[j]);
                        assert(pre[j].deep_view() == pre_deep[j]);
                        assert(dv.take(i as int)[j] == dv.take(i + 1)[j]);
                    } else {
                        assert(out@[j] == rec);
                        assert(dv.take(i + 1)[j] == dv[i as int]);
                    }
                }
                assert(out.deep_view() =~= want);
            }
        } else {
            proof {
                assert(!valid_utf8(raw.deep_view()[i as int].0));
                assert(!keys_decodable(raw.deep_view()));
            }
            return Err(ScanError::InvalidKey);
        }
    }
    proof {
        assert(raw.deep_view().take(len as int) =~= raw.deep_view());
    }
    Ok(out)
}

/// Law: a scan's outcome is a pure function of the records the engine yields;
/// two outcomes computed over equal raw sequences agree — the same success,
/// the same records in the same order, the same failure.
pub proof fn lemma_scan_outcome_deterministic(
    raw: Seq<(Seq<u8>, Seq<u8>)>,
    r1: Result<Vec<Record>, ScanError>,
    r2: Result<Vec<Record>, ScanError>,
)
    requires
        scan_post(raw, r1),
        scan_post(raw, r2),
    ensures
        r1 is Ok <==> r2 is Ok,
        r1 is Ok ==> r1->Ok_0.deep_view() == r2->Ok_0.deep_view(),
        r1 is Err ==> r1->Err_0 == r2->Err_0,
{
}

} // verus!
