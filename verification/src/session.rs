//! The data a viewing session hands to its interface: partition lists,
//! two-column preview tables, and the rendered detail view of one value.

use vstd::prelude::*;

verus! {

use vstd::utf8::{valid_utf8, decode_utf8};
use crate::render::{
    render,
    plain_rendering,
    hex_rendering,
    json_formatted,
    DisplayMode,
    RenderError,
};
use crate::store::{Record, StoreCatalog, LookupError};
use crate::text::str_eq;

/// Truncation budget, in bytes, of one preview cell in the record table.
pub const PREVIEW_BUDGET: usize = 64;

/// Truncation budget, in bytes, of the single-value detail view.
pub const DETAIL_BUDGET: usize = 2048;

/// What a session is looking at: nothing yet, or an opened store's catalog.
/// Loading a store replaces the whole source.
pub enum DataSource {
    Empty,
    Backed(StoreCatalog),
}

impl DataSource {
    /// The partition names this source offers.
    pub open spec fn spec_partitions(&self) -> Seq<Seq<char>> {
        match self {
            DataSource::Empty => seq![],
            DataSource::Backed(c) => c.partitions(),
        }
    }

    /// The partition names to list: none at all while no store is loaded.
    pub fn partition_names(&self) -> (r: Vec<String>)
        ensures
            r.deep_view() == self.spec_partitions(),
    {
        match self {
            DataSource::Empty => {
                let r: Vec<String> = Vec::new();
                proof {
                    assert(r.deep_view() =~= self.spec_partitions());
                }
                r
            },
            DataSource::Backed(c) => {
                let names = c.list_partitions();
                let mut r: Vec<String> = Vec::new();
                let len = names.len();
                proof {
                    assert(r.deep_view() =~= names.deep_view().take(0));
                }
                for i in 0..len
                    invariant
                        len == names@.len(),
                        names.deep_view() == c.partitions(),
                        r.deep_view() == names.deep_view().take(i as int),
                {
                    let item = names[i].clone();
                    proof {
                        assert(item == names@[i as int]);
                    }
                    let ghost pre = r@;
                    let ghost pre_deep = r.deep_view();
                    proof {
                        assert(pre_deep.len() == pre.len());
                        assert(names.deep_view().take(i as int).len() == i as int);
                    }
                    r.push(item);
                    proof {
                        let want = names.deep_view().take(i + 1);
                        assert forall|j: int| 0 <= j < r@.len() implies r.deep_view()[j]
                            == want[j] by {
                            if j < i {
                                assert(r@[j] == pre[j]);
                                assert(pre[j].deep_view() == pre_deep[j]);
                                assert(names.deep_view().take(i as int)[j] == want[j]);
                            } else {
                                assert(r@[j] == names@[i as int]);
                                assert(want[j] == names.deep_view()[i as int]);
                            }
                        }
                        assert(r.deep_view() =~= want);
                    }
                }
                proof {
                    assert(names.deep_view().take(len as int) =~= names.deep_view());
                }
                r
            },
        }
    }
}

/// The two-column table of decoded records: each key beside the bounded plain
/// preview of its value.
pub open spec fn preview_of(recs: Seq<(Seq<char>, Seq<u8>)>) -> Seq<(Seq<char>, Seq<char>)> {
    recs.map(
        |_i: int, r: (Seq<char>, Seq<u8>)| (r.0, plain_rendering(r.1, PREVIEW_BUDGET as int)),
    )
}

/// Build the table rows shown for one scanned partition.
pub fn preview_rows(records: &Vec<Record>) -> (r: Vec<(String, String)>)
    ensures
        r.deep_view() == preview_of(records.deep_view()),
{
    let mut out: Vec<(String, String)> = Vec::new();
    let len = records.len();
    proof {
        assert(out.deep_view() =~= preview_of(records.deep_view().take(0)));
    }
    for i in 0..len
        invariant
            len == records@.len(),
            out.deep_view() == preview_of(records.deep_view().take(i as int)),
    {
        let key = records[i].key.clone();
        let preview = match render(records[i].value.as_slice(), DisplayMode::Plain(
            PREVIEW_BUDGET,
        )) {
            Ok(s) => s,
            Err(_) => {
                proof {
                    assert(false);
                }
                String::new()
            },
        };
        let ghost pre = out@;
        let ghost pre_deep = out.deep_view();
        let ghost row_view = (key@, preview@);
        proof {
            assert(pre_deep == preview_of(records.deep_view().take(i as int)));
            assert(records.deep_view().len() == len);
            assert(preview_of(records.deep_view().take(i as int)).len() == i as int);
            assert(pre_deep.len() == pre.len());
            assert(pre.len() == i as int);
        }
        out.push((key, preview));
        proof {
            let dv = records.deep_view();
            let want = preview_of(dv.take(i + 1));
            assert(row_view.0 == dv[i as int].0);
            assert(row_view.1 == plain_rendering(dv[i as int].1, PREVIEW_BUDGET as int));
            assert forall|j: int| 0 <= j < out@.len() implies out.deep_view()[j] == want[j] by {
                if j < i {
                    assert(out@[j] == pre[j]);
                    assert(pre[j].deep_view() == pre_deep[j]);
                    assert(dv.take(i as int)[j] == dv.take(i + 1)[j]);
                } else {
                    assert(dv.take(i + 1)[j] == dv[i as int]);
                }
            }
            assert(out.deep_view() =~= want);
        }
    }
    proof {
        assert(records.deep_view().take(len as int) =~= records.deep_view());
    }
    out
}

/// The display mode a caller-supplied token selects: `json` and `hex` pick
/// those modes with the detail budget; every other token, the fallback too,
/// is plain with the detail budget.
pub open spec fn spec_mode_of_token(t: Seq<char>) -> DisplayMode {
    if t == "json"@ {
        DisplayMode::Json
    } else if t == "hex"@ {
        DisplayMode::Hex(DETAIL_BUDGET)
    } else {
        DisplayMode::Plain(DETAIL_BUDGET)
    }
}

/// Decode a caller-supplied display-mode token.
pub fn mode_of_token(token: &str) -> (m: DisplayMode)
    ensures
        m == spec_mode_of_token(token@),
{
    if str_eq(token, "json") {
        DisplayMode::Json
    } else if str_eq(token, "hex") {
        DisplayMode::Hex(DETAIL_BUDGET)
    } else {
        DisplayMode::Plain(DETAIL_BUDGET)
    }
}

/// Failure of a detail-view request: the lookup failed, or the value could
/// not be rendered as asked.
#[derive(Debug)]
pub enum ViewError {
    Lookup(LookupError),
    Render(RenderError),
}

/// Render the outcome of a point lookup under the given mode: the value, when
/// the engine found one, rendered; `NotFound` when it found none; the
/// engine's failure otherwise.
pub fn rendered_lookup(raw: Result<Option<Vec<u8>>, String>, mode: DisplayMode) -> (r: Result<
    String,
    ViewError,
>)
    ensures
        raw matches Ok(Some(v)) ==> (match mode {
            DisplayMode::Plain(n) => r matches Ok(s) && s@ == plain_rendering(v@, n as int),
            DisplayMode::Hex(n) => r matches Ok(s) && s@ == hex_rendering(v@, n as int),
            DisplayMode::Json => {
                &&& (r is Ok <==> valid_utf8(v@) && json_formatted(decode_utf8(v@)) is Some)
                &&& (r matches Ok(s) ==> s@ == json_formatted(decode_utf8(v@))->0)
                &&& (r is Err ==> r->Err_0 matches ViewError::Render(RenderError::NotJson))
            },
        }),
        raw matches Ok(None) ==> r matches Err(ViewError::Lookup(LookupError::NotFound)),
        raw matches Err(m) ==> r matches Err(e) && e matches ViewError::Lookup(le) && le matches
            LookupError::Engine(em) && em == m,
{
    match crate::store::lookup_outcome(raw) {
        Ok(v) => match render(v.as_slice(), mode) {
            Ok(s) => Ok(s),
            Err(e) => Err(ViewError::Render(e)),
        },
        Err(e) => Err(ViewError::Lookup(e)),
    }
}

} // verus!
