//! A fully-resolved signal: one declared field of one event of one
//! segment, with its type, unit and value labels.

use vstd::prelude::*;

use crate::data_type::DataType;
use crate::segment::TraceSegment;
use crate::segment_id::{uuid_format, uuid_text_of};
use crate::signal_key::{PathSegment, PathSegmentView, SignalKey};
use crate::value::{NumberValue, Value, ValueView};

verus! {

/// The numeric labels of a value table, in order: each integer-valued key
/// with its label; keys of other shapes are left out.
pub open spec fn spec_numeric_labels(values: Seq<(ValueView, Seq<char>)>) -> Seq<
    (NumberValue, Seq<char>),
>
    decreases values.len(),
{
    if values.len() == 0 {
        Seq::empty()
    } else {
        spec_numeric_labels(values.drop_last()) + match Value::spec_as_number(values.last().0) {
            Some(n) => seq![(n, values.last().1)],
            None => Seq::empty(),
        }
    }
}

/// Whether `sig` is the signal that field `j` of schema `i` of `seg`
/// resolves to: the segment's identity, the schema's name as the message,
/// the field's name, type and unit, and the field's numeric labels where
/// it has any.
pub open spec fn spec_resolved_signal(seg: &TraceSegment, i: int, j: int, sig: Signal) -> bool {
    &&& sig.data_segment_id == seg.model().id
    &&& sig.source@ == seg.model().source
    &&& sig.message@ == seg.model().schemas[i].name
    &&& sig.signal@ == seg.model().schemas[i].fields[j].metadata.name
    &&& sig.data_type == seg.model().schemas[i].fields[j].metadata.data_type
    &&& match sig.unit {
        Some(u) => seg.model().schemas[i].fields[j].metadata.unit matches Some(mu) && u@ == mu,
        None => seg.model().schemas[i].fields[j].metadata.unit is None,
    }
    &&& match sig.value_table {
        Some(vt) => {
            &&& seg.schemas@[i].fields@[j].values@.len() > 0
            &&& vt@.map_values(|p: (NumberValue, String)| (p.0, p.1@)) =~= spec_numeric_labels(
                seg.schemas@[i].fields@[j].values@,
            )
        },
        None => seg.schemas@[i].fields@[j].values@.len() == 0,
    }
}

/// How many signals a schema sequence resolves: one per declared field.
pub open spec fn spec_signal_count(ss: Seq<crate::segment::SchemaModel>) -> int
    decreases ss.len(),
{
    if ss.len() == 0 {
        0
    } else {
        spec_signal_count(ss.drop_last()) + ss.last().fields.len()
    }
}

/// Where schema `i`'s signals begin in the flattened signal list.
pub open spec fn spec_signal_offset(ss: Seq<crate::segment::SchemaModel>, i: int) -> int {
    spec_signal_count(ss.take(i))
}

/// The signal count never falls, and each schema advances the offset by
/// its own field count.
pub proof fn lemma_signal_offset_step(ss: Seq<crate::segment::SchemaModel>, i: int)
    requires
        0 <= i < ss.len(),
    ensures
        spec_signal_offset(ss, i + 1) == spec_signal_offset(ss, i) + ss[i].fields.len(),
        spec_signal_offset(ss, i) >= 0,
    decreases i,
{
    assert(ss.take(i + 1).drop_last() =~= ss.take(i));
    assert(ss.take(i + 1).last() == ss[i]);
    if i > 0 {
        lemma_signal_offset_step(ss, i - 1);
    } else {
        assert(ss.take(0) =~= Seq::<crate::segment::SchemaModel>::empty());
    }
}

/// The offsets grow with the schema index.
pub proof fn lemma_signal_offset_mono(ss: Seq<crate::segment::SchemaModel>, a: int, b: int)
    requires
        0 <= a <= b <= ss.len(),
    ensures
        spec_signal_offset(ss, a) <= spec_signal_offset(ss, b),
    decreases b - a,
{
    if a < b {
        lemma_signal_offset_step(ss, b - 1);
        lemma_signal_offset_mono(ss, a, b - 1);
    }
}

/// One signal: where it lives, what it is called, and how it is typed
/// and labelled.
#[derive(Debug)]
pub struct Signal {
    pub data_segment_id: u128,
    pub source: String,
    pub message: String,
    pub signal: String,
    pub data_type: DataType,
    pub unit: Option<String>,
    /// The numeric value labels of this signal, where it has any.
    pub value_table: Option<Vec<(NumberValue, String)>>,
}

impl Signal {
    /// The key that names this signal exactly.
    pub fn key(&self) -> (r: SignalKey)
        ensures
            r@.data_segment_id == PathSegmentView::Uuid(self.data_segment_id),
            r@.source == self.source@,
            r@.message == self.message@,
            r@.signal == self.signal@,
    {
        SignalKey {
            data_segment_id: PathSegment::Uuid { uuid: self.data_segment_id },
            source: self.source.clone(),
            message: self.message.clone(),
            signal: self.signal.clone(),
        }
    }

    /// The `"<seg>/<source>/<message>.<signal>"` text of this signal's
    /// key.
    pub fn key_string(&self) -> (r: String)
        ensures
            r@ == uuid_text_of(self.data_segment_id) + "/"@ + self.source@ + "/"@ + self.message@
                + "."@ + self.signal@,
    {
        let mut out = uuid_format(self.data_segment_id);
        out.append("/");
        out.append(self.source.as_str());
        out.append("/");
        out.append(self.message.as_str());
        out.append(".");
        out.append(self.signal.as_str());
        out
    }

    /// The quoted `"<seg>"."<source>/<message>"` table name this signal's
    /// event maps to.
    pub fn fully_qualified_table_name(&self) -> (r: String)
        ensures
            r@ == "\""@ + uuid_text_of(self.data_segment_id) + "\".\""@ + self.source@ + "/"@
                + self.message@ + "\""@,
    {
        let mut out = "\"".to_owned();
        let id = uuid_format(self.data_segment_id);
        out.append(id.as_str());
        out.append("\".\"");
        out.append(self.source.as_str());
        out.append("/");
        out.append(self.message.as_str());
        out.append("\"");
        out
    }
}

impl SignalKey {
    /// Whether this key names the signal: a wildcard segment matches any
    /// segment, everything else must agree.
    pub fn matches(&self, signal: &Signal) -> (r: bool)
        ensures
            r == ({
                &&& match self@.data_segment_id {
                    PathSegmentView::Wildcard => true,
                    PathSegmentView::Uuid(v) => v == signal.data_segment_id,
                }
                &&& self@.source == signal.source@
                &&& self@.message == signal.message@
                &&& self@.signal == signal.signal@
            }),
    {
        self.matches_parts(
            signal.data_segment_id,
            signal.source.as_str(),
            signal.message.as_str(),
            signal.signal.as_str(),
        )
    }
}

impl TraceSegment {
    /// The signal that field `j` of schema `i` of this segment resolves
    /// to: the segment's identity, the schema's name as the message, the
    /// field's name, type and unit, and the field's numeric value labels
    /// where it has any.
    pub fn signal_at(&self, i: usize, j: usize) -> (r: Signal)
        requires
            i < self.model().schemas.len(),
            j < self.model().schemas[i as int].fields.len(),
        ensures
            spec_resolved_signal(self, i as int, j as int, r),
    {
        let schema = &self.schemas[i];
        let field = &schema.fields[j];
        let value_table: Option<Vec<(NumberValue, String)>> = if field.values.len() == 0 {
            None
        } else {
            let pairs = field.values.pairs();
            let ghost table = field.values@;
            let mut vt: Vec<(NumberValue, String)> = Vec::new();
            let n: usize = pairs.len();
            let mut k: usize = 0;
            while k < n
                invariant
                    0 <= k <= n,
                    n == table.len(),
                    table == self.schemas@[i as int].fields@[j as int].values@,
                    pairs@.len() == table.len(),
                    forall|t: int|
                        0 <= t < table.len() ==> (#[trigger] pairs@[t].0@, pairs@[t].1@)
                            == table[t],
                    vt@.map_values(|p: (NumberValue, String)| (p.0, p.1@))
                        =~= spec_numeric_labels(table.take(k as int)),
                decreases n - k,
            {
                let ghost pre = vt@.map_values(|p: (NumberValue, String)| (p.0, p.1@));
                match pairs[k].0.as_number() {
                    Some(num) => {
                        vt.push((num, pairs[k].1.clone()));
                        proof {
                            assert(vt@.map_values(|p: (NumberValue, String)| (p.0, p.1@))
                                =~= pre.push((num, table[k as int].1)));
                        }
                    }
                    None => {}
                }
                proof {
                    assert(table.take(k + 1).drop_last() =~= table.take(k as int));
                    assert(table.take(k + 1).last() == table[k as int]);
                    assert(vt@.map_values(|p: (NumberValue, String)| (p.0, p.1@))
                        =~= spec_numeric_labels(table.take(k + 1)));
                }
                k = k + 1;
            }
            proof {
                assert(table.take(n as int) =~= table);
            }
            Some(vt)
        };
        let r = Signal {
            data_segment_id: self.id,
            source: self.source.clone(),
            message: schema.name.clone(),
            signal: field.metadata.name.clone(),
            data_type: field.metadata.data_type,
            unit: match &field.metadata.unit {
                Some(u) => Some(u.clone()),
                None => None,
            },
            value_table,
        };
        proof {
            assert(self.model().schemas[i as int] == self.schemas@[i as int].model());
            assert(self.model().schemas[i as int].fields[j as int] == self.schemas@[
                i as int
            ].fields@[j as int].model());
        }
        r
    }

    /// Every signal this segment resolves, schema by schema and field by
    /// field, in declaration order: one per declared field, the signal of
    /// field `j` of schema `i` standing at that schema's offset plus `j`.
    pub fn signals(&self) -> (r: Vec<Signal>)
        ensures
            r@.len() == spec_signal_count(self.model().schemas),
            forall|i: int, j: int|
                0 <= i < self.model().schemas.len() && 0 <= j < self.model().schemas[
                    i
                ].fields.len() ==> spec_resolved_signal(
                    self,
                    i,
                    j,
                    #[trigger] r@[spec_signal_offset(self.model().schemas, i) + j],
                ),
    {
        let ghost ss = self.model().schemas;
        let mut out: Vec<Signal> = Vec::new();
        proof {
            assert(ss.take(0) =~= Seq::<crate::segment::SchemaModel>::empty());
        }
        let n: usize = self.schemas.len();
        let mut i: usize = 0;
        while i < n
            invariant
                0 <= i <= n,
                n == ss.len(),
                ss == self.model().schemas,
                out@.len() == spec_signal_offset(ss, i as int),
                forall|k: int, jj: int|
                    0 <= k < i && 0 <= jj < ss[k].fields.len() ==> spec_resolved_signal(
                        self,
                        k,
                        jj,
                        #[trigger] out@[spec_signal_offset(ss, k) + jj],
                    ),
            decreases n - i,
        {
            let m: usize = self.schemas[i].fields.len();
            proof {
                assert(ss[i as int] == self.schemas@[i as int].model());
            }
            let mut j: usize = 0;
            while j < m
                invariant
                    0 <= j <= m,
                    0 <= i < n,
                    n == ss.len(),
                    ss == self.model().schemas,
                    m == ss[i as int].fields.len(),
                    out@.len() == spec_signal_offset(ss, i as int) + j,
                    forall|k: int, jj: int|
                        0 <= k < i && 0 <= jj < ss[k].fields.len() ==> spec_resolved_signal(
                            self,
                            k,
                            jj,
                            #[trigger] out@[spec_signal_offset(ss, k) + jj],
                        ),
                    forall|jj: int|
                        0 <= jj < j ==> spec_resolved_signal(
                            self,
                            i as int,
                            jj,
                            #[trigger] out@[spec_signal_offset(ss, i as int) + jj],
                        ),
                decreases m - j,
            {
                let ghost pre_out = out@;
                let sig = self.signal_at(i, j);
                out.push(sig);
                proof {
                    assert forall|k: int, jj: int|
                        0 <= k < i && 0 <= jj < ss[k].fields.len() implies spec_resolved_signal(
                        self,
                        k,
                        jj,
                        #[trigger] out@[spec_signal_offset(ss, k) + jj],
                    ) by {
                        lemma_signal_offset_step(ss, k);
                        lemma_signal_offset_mono(ss, k + 1, i as int);
                        assert(out@[spec_signal_offset(ss, k) + jj] == pre_out[spec_signal_offset(
                            ss,
                            k,
                        ) + jj]);
                    }
                    assert forall|jj: int|
                        0 <= jj < j + 1 implies spec_resolved_signal(
                        self,
                        i as int,
                        jj,
                        #[trigger] out@[spec_signal_offset(ss, i as int) + jj],
                    ) by {
                        lemma_signal_offset_step(ss, i as int);
                        if jj < j {
                            assert(out@[spec_signal_offset(ss, i as int) + jj]
                                == pre_out[spec_signal_offset(ss, i as int) + jj]);
                        } else {
                            assert(out@[spec_signal_offset(ss, i as int) + jj] == sig);
                        }
                    }
                }
                j = j + 1;
            }
            proof {
                lemma_signal_offset_step(ss, i as int);
                assert forall|k: int, jj: int|
                    0 <= k < i + 1 && 0 <= jj < ss[k].fields.len() implies spec_resolved_signal(
                    self,
                    k,
                    jj,
                    #[trigger] out@[spec_signal_offset(ss, k) + jj],
                ) by {}
            }
            i = i + 1;
        }
        proof {
            assert(ss.take(n as int) =~= ss);
        }
        out
    }

    /// The signal a key resolves to in this segment, if any: the key's
    /// segment component must admit this segment, its source must match,
    /// and the named message and signal must be declared.
    pub fn maybe_signal_matching(&self, key: &SignalKey) -> (r: Option<Signal>)
        ensures
            match r {
                Some(sig) => {
                    &&& match key@.data_segment_id {
                        PathSegmentView::Wildcard => true,
                        PathSegmentView::Uuid(v) => v == self.model().id,
                    }
                    &&& key@.source == self.model().source
                    &&& sig.data_segment_id == self.model().id
                    &&& sig.message@ == key@.message
                    &&& sig.signal@ == key@.signal
                },
                None => true,
            },
    {
        match &key.data_segment_id {
            PathSegment::Uuid { uuid } => {
                if *uuid != self.id {
                    return None;
                }
            }
            PathSegment::Wildcard => {}
        }
        if !crate::text::str_eq_str(key.source.as_str(), self.source.as_str()) {
            return None;
        }
        let i = match self.find_schema(key.message.as_str()) {
            Some(i) => i,
            None => {
                return None;
            }
        };
        let j = match self.schemas[i].find_field(key.signal.as_str()) {
            Some(j) => j,
            None => {
                return None;
            }
        };
        proof {
            assert(self.model().schemas[i as int] == self.schemas@[i as int].model());
        }
        Some(self.signal_at(i, j))
    }

    /// The signals that a list of keys resolves in this segment, key by
    /// key, skipping keys that resolve nothing.
    pub fn signals_matching(&self, keys: &Vec<SignalKey>) -> (r: Vec<Signal>)
        ensures
            r@.len() <= keys@.len(),
            forall|k: int|
                0 <= k < r@.len() ==> (#[trigger] r@[k]).data_segment_id == self.model().id,
    {
        let mut out: Vec<Signal> = Vec::new();
        let n: usize = keys.len();
        let mut i: usize = 0;
        while i < n
            invariant
                0 <= i <= n,
                n == keys@.len(),
                out@.len() <= i,
                forall|k: int|
                    0 <= k < out@.len() ==> (#[trigger] out@[k]).data_segment_id
                        == self.model().id,
            decreases n - i,
        {
            match self.maybe_signal_matching(&keys[i]) {
                Some(sig) => {
                    out.push(sig);
                }
                None => {}
            }
            i = i + 1;
        }
        out
    }

    /// The `"<seg>/<source>/<message>"` key of the table that schema `i`'s
    /// events map to.
    pub fn table_key(&self, i: usize) -> (r: String)
        requires
            i < self.model().schemas.len(),
        ensures
            r@ == crate::segment_id::uuid_text_of(self.model().id) + "/"@ + self.model().source
                + "/"@ + self.model().schemas[i as int].name,
    {
        let mut out = uuid_format(self.id);
        out.append("/");
        out.append(self.source.as_str());
        out.append("/");
        out.append(self.schemas[i].name.as_str());
        proof {
            assert(self.model().schemas[i as int] == self.schemas@[i as int].model());
        }
        out
    }
}

} // verus!
