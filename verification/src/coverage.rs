//! Coverage snapshots: what the external instrumentation tool reports, held
//! as plain values so the rest of the pipeline can be reasoned about.

use vstd::prelude::*;

use crate::bytes::bytes_eq;

verus! {

/// Hit-count statistics for one trace; a line is uncovered iff this is zero.
#[derive(Debug, Clone, Copy, PartialEq, Eq, Structural)]
pub struct Stats {
    pub line: usize,
}

/// The view of one trace record.
pub struct TraceData {
    pub line: u32,
    pub address: Seq<usize>,
    pub length: usize,
    pub stats: Stats,
    pub fn_name: Option<Seq<char>>,
}

/// One instrumentation point: a 1-based source line, its address list and
/// byte length, the hit-count statistic, and the enclosing function's name
/// when the tool knows it.
#[derive(Debug)]
pub struct Trace {
    pub line: u32,
    pub address: Vec<usize>,
    pub length: usize,
    pub stats: Stats,
    pub fn_name: Option<String>,
}

impl View for Trace {
    type V = TraceData;

    open spec fn view(&self) -> TraceData {
        TraceData {
            line: self.line,
            address: self.address@,
            length: self.length,
            stats: self.stats,
            fn_name: if self.fn_name is Some {
                Some(self.fn_name.unwrap()@)
            } else {
                None
            },
        }
    }
}

impl DeepView for Trace {
    type V = TraceData;

    open spec fn deep_view(&self) -> TraceData {
        self.view()
    }
}

impl Trace {
    /// A copy of this trace record.
    pub fn duplicate(&self) -> (r: Trace)
        ensures
            r@ == self@,
    {
        Trace {
            line: self.line,
            address: vstd::slice::slice_to_vec(self.address.as_slice()),
            length: self.length,
            stats: self.stats,
            fn_name: match &self.fn_name {
                Some(name) => Some(name.clone()),
                None => None,
            },
        }
    }
}

/// A coverage snapshot: for each absolute file path, the ordered trace
/// records the report holds for it. Replaced wholesale on each new run,
/// never mutated in place.
#[derive(Debug)]
pub struct Coverage {
    pub traces: Vec<(Vec<u8>, Vec<Trace>)>,
}

impl View for Coverage {
    type V = Seq<(Seq<u8>, Seq<TraceData>)>;

    open spec fn view(&self) -> Seq<(Seq<u8>, Seq<TraceData>)> {
        self.traces.deep_view()
    }
}

/// The traces recorded for `path`: those of the first entry bearing it.
pub open spec fn lookup_traces(
    entries: Seq<(Seq<u8>, Seq<TraceData>)>,
    path: Seq<u8>,
) -> Option<Seq<TraceData>>
    decreases entries.len(),
{
    if entries.len() == 0 {
        None
    } else if entries[0].0 == path {
        Some(entries[0].1)
    } else {
        lookup_traces(entries.drop_first(), path)
    }
}

impl Coverage {
    /// The trace list recorded for `path`, when the snapshot holds one.
    pub fn find_traces(&self, path: &[u8]) -> (r: Option<&Vec<Trace>>)
        ensures
            match r {
                Some(ts) => lookup_traces(self@, path@) == Some(ts.deep_view()),
                None => lookup_traces(self@, path@) is None,
            },
    {
        proof {
            assert(self@.skip(0) =~= self@);
        }
        let mut i: usize = 0;
        while i < self.traces.len()
            invariant
                i <= self.traces.len(),
                lookup_traces(self@, path@) == lookup_traces(self@.skip(i as int), path@),
            decreases self.traces.len() - i,
        {
            proof {
                assert(self@.skip(i as int)[0] == self@[i as int]);
                assert(self@.skip(i as int).drop_first() =~= self@.skip(i as int + 1));
                assert(self@[i as int].0 =~= self.traces@[i as int].0@);
            }
            if bytes_eq(self.traces[i].0.as_slice(), path) {
                return Some(&self.traces[i].1);
            }
            i = i + 1;
        }
        None
    }
}

} // verus!
