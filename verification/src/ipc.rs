//! The message variants routed between producers, the router and sinks.

use vstd::prelude::*;

use crate::data_type::DataType;
use crate::value::{Value, ValueView};

verus! {

/// Announces a segment; carries the producer-observed start time.
#[derive(Debug)]
pub struct TraceSegmentStart {
    pub time_ns: i64,
    pub source_name: String,
}

/// The mathematical shape of [`TraceSegmentStart`].
pub struct SegmentStartView {
    pub time_ns: i64,
    pub source_name: Seq<char>,
}

impl View for TraceSegmentStart {
    type V = SegmentStartView;

    open spec fn view(&self) -> SegmentStartView {
        SegmentStartView { time_ns: self.time_ns, source_name: self.source_name@ }
    }
}

impl Clone for TraceSegmentStart {
    /// A clone preserves the mathematical value.
    fn clone(&self) -> (r: Self)
        ensures
            r@ == self@,
    {
        TraceSegmentStart { time_ns: self.time_ns, source_name: self.source_name.clone() }
    }
}

/// Announces segment closure.
#[derive(Debug)]
pub struct TraceSegmentEnd {
    pub time_ns: i64,
}

/// The mathematical shape of [`TraceSegmentEnd`].
pub struct SegmentEndView {
    pub time_ns: i64,
}

impl View for TraceSegmentEnd {
    type V = SegmentEndView;

    open spec fn view(&self) -> SegmentEndView {
        SegmentEndView { time_ns: self.time_ns }
    }
}

impl Clone for TraceSegmentEnd {
    /// A clone preserves the mathematical value.
    fn clone(&self) -> (r: Self)
        ensures
            r@ == self@,
    {
        TraceSegmentEnd { time_ns: self.time_ns }
    }
}

/// One declared field of an event schema: a name, a type, and an optional
/// unit.
#[derive(Debug)]
pub struct TraceEventFieldMetadata {
    pub name: String,
    pub data_type: DataType,
    pub unit: Option<String>,
}

/// The mathematical shape of [`TraceEventFieldMetadata`].
pub struct FieldMetadataView {
    pub name: Seq<char>,
    pub data_type: DataType,
    pub unit: Option<Seq<char>>,
}

impl View for TraceEventFieldMetadata {
    type V = FieldMetadataView;

    open spec fn view(&self) -> FieldMetadataView {
        FieldMetadataView {
            name: self.name@,
            data_type: self.data_type,
            unit: match self.unit {
                Some(u) => Some(u@),
                None => None,
            },
        }
    }
}

impl Clone for TraceEventFieldMetadata {
    /// A clone preserves the mathematical value.
    fn clone(&self) -> (r: Self)
        ensures
            r@ == self@,
    {
        TraceEventFieldMetadata {
            name: self.name.clone(),
            data_type: self.data_type,
            unit: match &self.unit {
                Some(u) => Some(u.clone()),
                None => None,
            },
        }
    }
}

/// Declares an event and its typed fields.
#[derive(Debug)]
pub struct TraceEventSchema {
    pub name: String,
    pub fields: Vec<TraceEventFieldMetadata>,
}

/// The mathematical shape of [`TraceEventSchema`].
pub struct EventSchemaView {
    pub name: Seq<char>,
    pub fields: Seq<FieldMetadataView>,
}

impl View for TraceEventSchema {
    type V = EventSchemaView;

    open spec fn view(&self) -> EventSchemaView {
        EventSchemaView {
            name: self.name@,
            fields: self.fields@.map_values(|f: TraceEventFieldMetadata| f@),
        }
    }
}

impl Clone for TraceEventSchema {
    /// A clone preserves the mathematical value.
    fn clone(&self) -> (r: Self)
        ensures
            r@ == self@,
    {
        let fields = self.fields.clone();
        proof {
            assert(fields@.map_values(|f: TraceEventFieldMetadata| f@) =~= self.fields@.map_values(
                |f: TraceEventFieldMetadata| f@,
            ));
        }
        TraceEventSchema { name: self.name.clone(), fields }
    }
}

/// An enum-like table of labels, keyed by scalar value.  Keys are unique;
/// inserting an existing key overwrites its label.
#[derive(Debug)]
pub struct ValueTable {
    entries: Vec<(Value, String)>,
}

impl View for ValueTable {
    type V = Seq<(ValueView, Seq<char>)>;

    closed spec fn view(&self) -> Seq<(ValueView, Seq<char>)> {
        self.entries@.map_values(|e: (Value, String)| (e.0@, e.1@))
    }
}

/// The label sequence `s` read as a last-write-wins map.
pub open spec fn table_as_map(s: Seq<(ValueView, Seq<char>)>) -> Map<ValueView, Seq<char>>
    decreases s.len(),
{
    if s.len() == 0 {
        Map::empty()
    } else {
        table_as_map(s.drop_last()).insert(s.last().0, s.last().1)
    }
}

/// Whether a key occurs in the label sequence `s`.
pub open spec fn table_has_key(s: Seq<(ValueView, Seq<char>)>, k: ValueView) -> bool {
    exists|i: int| 0 <= i < s.len() && s[i].0 == k
}

/// Whether every key in the label sequence `s` occurs only once.
pub open spec fn table_keys_unique(s: Seq<(ValueView, Seq<char>)>) -> bool {
    forall|i: int, j: int| 0 <= i < j < s.len() ==> s[i].0 != s[j].0
}

impl ValueTable {
    /// Whether this table is well formed: its keys are unique.
    pub open spec fn wf(&self) -> bool {
        table_keys_unique(self@)
    }

    /// An empty table.
    pub fn new() -> (r: ValueTable)
        ensures
            r@ =~= Seq::<(ValueView, Seq<char>)>::empty(),
            r.wf(),
    {
        let r = ValueTable { entries: Vec::new() };
        proof {
            assert(r@ =~= Seq::<(ValueView, Seq<char>)>::empty());
        }
        r
    }

    /// How many labels the table holds.
    pub fn len(&self) -> (r: usize)
        ensures
            r == self@.len(),
    {
        self.entries.len()
    }

    /// The labelled pairs, in insertion order.
    pub fn pairs(&self) -> (r: &Vec<(Value, String)>)
        ensures
            r@.len() == self@.len(),
            forall|i: int| 0 <= i < self@.len() ==> (#[trigger] r@[i].0@, r@[i].1@) == self@[i],
    {
        &self.entries
    }

    /// The index at which a key sits in the table, if it does.
    pub open spec fn spec_index_of(s: Seq<(ValueView, Seq<char>)>, k: ValueView) -> int {
        choose|i: int| 0 <= i < s.len() && s[i].0 == k
    }

    /// The label stored for key `k`, by the map reading of the table.
    pub fn get(&self, k: &Value) -> (r: Option<&String>)
        requires
            self.wf(),
        ensures
            match r {
                Some(v) => table_as_map(self@).dom().contains(k@) && table_as_map(self@)[k@] == v@,
                None => !table_as_map(self@).dom().contains(k@),
            },
    {
        proof {
            Self::lemma_map_matches_keys(self@);
        }
        let n: usize = self.entries.len();
        let mut i: usize = 0;
        while i < n
            invariant
                0 <= i <= n,
                n == self@.len(),
                self.wf(),
                forall|j: int| 0 <= j < i ==> self@[j].0 != k@,
                table_as_map(self@).dom() =~= Set::new(|kk: ValueView| table_has_key(self@, kk)),
                forall|j: int|
                    0 <= j < self@.len() && table_keys_unique(self@) ==> table_as_map(self@)[
                        #[trigger] self@[j].0
                    ] == self@[j].1,
            decreases n - i,
        {
            if self.entries[i].0.eq(k) {
                proof {
                    assert(self@[i as int].0 == k@);
                    assert(table_has_key(self@, k@));
                }
                return Some(&self.entries[i].1);
            }
            i = i + 1;
        }
        None
    }

    /// Inserts a label: a new key is appended, an existing key's label is
    /// overwritten in place.  The map reading gains exactly this pair.
    pub fn insert(&mut self, k: Value, v: String)
        requires
            old(self).wf(),
        ensures
            final(self).wf(),
            table_as_map(final(self)@) =~= table_as_map(old(self)@).insert(k@, v@),
            table_has_key(old(self)@, k@) ==> final(self)@ =~= old(self)@.update(
                Self::spec_index_of(old(self)@, k@),
                (k@, v@),
            ),
            !table_has_key(old(self)@, k@) ==> final(self)@ =~= old(self)@.push((k@, v@)),
    {
        let ghost old_view = self@;
        let n: usize = self.entries.len();
        let mut i: usize = 0;
        while i < n
            invariant
                0 <= i <= n,
                n == self@.len(),
                self.wf(),
                self@ == old_view,
                old_view == old(self)@,
                forall|j: int| 0 <= j < i ==> self@[j].0 != k@,
            decreases n - i,
        {
            if self.entries[i].0.eq(&k) {
                proof {
                    assert(old_view[i as int].0 == k@);
                    assert(table_has_key(old_view, k@));
                }
                self.entries.set(i, (k, v));
                proof {
                    let j = Self::spec_index_of(old_view, old_view[i as int].0);
                    assert(0 <= j < old_view.len() && old_view[j].0 == old_view[i as int].0);
                    assert(j == i as int);
                    assert(self@ =~= old_view.update(i as int, (old_view[i as int].0, self@[i as int].1)));
                    Self::lemma_update_value_is_insert(old_view, i as int, self@[i as int].1);
                }
                return ;
            }
            i = i + 1;
        }
        self.entries.push((k, v));
        proof {
            assert(self@ =~= old_view.push((self@.last().0, self@.last().1)));
            assert(self@.drop_last() =~= old_view);
        }
    }

    /// Inserts every pair of `other`, in order.
    pub fn extend_from(&mut self, other: &ValueTable)
        requires
            old(self).wf(),
        ensures
            final(self).wf(),
            table_as_map(final(self)@) =~= Self::spec_extend(table_as_map(old(self)@), other@),
    {
        let n: usize = other.entries.len();
        let mut i: usize = 0;
        while i < n
            invariant
                0 <= i <= n,
                n == other@.len(),
                self.wf(),
                table_as_map(self@) =~= Self::spec_extend(
                    table_as_map(old(self)@),
                    other@.take(i as int),
                ),
            decreases n - i,
        {
            let ghost pre = table_as_map(self@);
            let k = other.entries[i].0.clone();
            let v = other.entries[i].1.clone();
            self.insert(k, v);
            proof {
                assert(other@.take(i + 1).drop_last() =~= other@.take(i as int));
                assert(table_as_map(self@) =~= Self::spec_extend(
                    table_as_map(old(self)@),
                    other@.take(i + 1),
                ));
            }
            i = i + 1;
        }
        proof {
            assert(other@.take(n as int) =~= other@);
        }
    }

    /// The map that results from writing every pair of `s` into `m`, in
    /// order.
    pub open spec fn spec_extend(
        m: Map<ValueView, Seq<char>>,
        s: Seq<(ValueView, Seq<char>)>,
    ) -> Map<ValueView, Seq<char>>
        decreases s.len(),
    {
        if s.len() == 0 {
            m
        } else {
            Self::spec_extend(m, s.drop_last()).insert(s.last().0, s.last().1)
        }
    }

    /// In a table with unique keys, the map reading agrees with the pairs.
    proof fn lemma_map_matches_keys(s: Seq<(ValueView, Seq<char>)>)
        requires
            table_keys_unique(s),
        ensures
            table_as_map(s).dom() =~= Set::new(|k: ValueView| table_has_key(s, k)),
            forall|j: int| 0 <= j < s.len() ==> table_as_map(s)[#[trigger] s[j].0] == s[j].1,
        decreases s.len(),
    {
        if s.len() == 0 {
            assert(table_as_map(s).dom() =~= Set::new(|k: ValueView| table_has_key(s, k)));
        } else {
            let d = s.drop_last();
            assert(table_keys_unique(d));
            Self::lemma_map_matches_keys(d);
            assert forall|k: ValueView|
                table_as_map(s).dom().contains(k) <==> table_has_key(s, k) by {
                if table_as_map(s).dom().contains(k) {
                    if k == s.last().0 {
                        assert(s[s.len() - 1].0 == k);
                    } else {
                        assert(table_as_map(d).dom().contains(k));
                        assert(table_has_key(d, k));
                        let i = choose|i: int| 0 <= i < d.len() && d[i].0 == k;
                        assert(s[i].0 == k);
                    }
                }
                if table_has_key(s, k) {
                    let i = choose|i: int| 0 <= i < s.len() && s[i].0 == k;
                    if i < s.len() - 1 {
                        assert(d[i].0 == k);
                        assert(table_has_key(d, k));
                        assert(table_as_map(d).dom().contains(k));
                    }
                }
            }
            assert(table_as_map(s).dom() =~= Set::new(|k: ValueView| table_has_key(s, k)));
            assert forall|j: int| 0 <= j < s.len() implies table_as_map(s)[#[trigger] s[j].0]
                == s[j].1 by {
                if j < s.len() - 1 {
                    assert(s[j].0 != s.last().0);
                    assert(d[j] == s[j]);
                    assert(table_as_map(d)[d[j].0] == d[j].1);
                }
            }
        }
    }

    /// Overwriting the label at a key's own index is, in the map reading,
    /// one insertion of that key.
    proof fn lemma_update_value_is_insert(s: Seq<(ValueView, Seq<char>)>, i: int, v: Seq<char>)
        requires
            table_keys_unique(s),
            0 <= i < s.len(),
        ensures
            table_keys_unique(s.update(i, (s[i].0, v))),
            table_as_map(s.update(i, (s[i].0, v))) =~= table_as_map(s).insert(s[i].0, v),
        decreases s.len(),
    {
        let t = s.update(i, (s[i].0, v));
        assert(table_keys_unique(t));
        Self::lemma_map_matches_keys(s);
        if i == s.len() - 1 {
            assert(t.drop_last() =~= s.drop_last());
        } else {
            assert(t.drop_last() =~= s.drop_last().update(i, (s[i].0, v)));
            assert(table_keys_unique(s.drop_last()));
            Self::lemma_update_value_is_insert(s.drop_last(), i, v);
            assert(t.last() == s.last());
            assert(table_as_map(t) =~= table_as_map(s.drop_last()).insert(s[i].0, v).insert(
                s.last().0,
                s.last().1,
            ));
            assert(s.last().0 != s[i].0);
        }
    }
}

impl Clone for ValueTable {
    /// A clone preserves the mathematical value.
    fn clone(&self) -> (r: Self)
        ensures
            r@ == self@,
    {
        let mut entries: Vec<(Value, String)> = Vec::new();
        let n: usize = self.entries.len();
        let mut i: usize = 0;
        while i < n
            invariant
                0 <= i <= n,
                n == self.entries@.len(),
                entries@.len() == i,
                forall|j: int|
                    0 <= j < i ==> (#[trigger] entries@[j].0@, entries@[j].1@) == (
                        self.entries@[j].0@,
                        self.entries@[j].1@,
                    ),
            decreases n - i,
        {
            let k = self.entries[i].0.clone();
            let v = self.entries[i].1.clone();
            entries.push((k, v));
            i = i + 1;
        }
        let r = ValueTable { entries };
        proof {
            assert(r@ =~= self@);
        }
        r
    }
}

/// Enum-like value labels for one field of one event.
#[derive(Debug)]
pub struct TraceEventFieldNamedValues {
    pub event_name: String,
    pub field_name: String,
    pub values: ValueTable,
}

/// The mathematical shape of [`TraceEventFieldNamedValues`].
pub struct NamedValuesView {
    pub event_name: Seq<char>,
    pub field_name: Seq<char>,
    pub values: Seq<(ValueView, Seq<char>)>,
}

impl View for TraceEventFieldNamedValues {
    type V = NamedValuesView;

    open spec fn view(&self) -> NamedValuesView {
        NamedValuesView {
            event_name: self.event_name@,
            field_name: self.field_name@,
            values: self.values@,
        }
    }
}

impl Clone for TraceEventFieldNamedValues {
    /// A clone preserves the mathematical value.
    fn clone(&self) -> (r: Self)
        ensures
            r@ == self@,
    {
        TraceEventFieldNamedValues {
            event_name: self.event_name.clone(),
            field_name: self.field_name.clone(),
            values: self.values.clone(),
        }
    }
}

/// The fields of one emitted event, keyed by field name.  Keys are unique;
/// inserting an existing key overwrites its value.
#[derive(Debug)]
pub struct FieldMap {
    entries: Vec<(String, Value)>,
}

impl View for FieldMap {
    type V = Seq<(Seq<char>, ValueView)>;

    closed spec fn view(&self) -> Seq<(Seq<char>, ValueView)> {
        self.entries@.map_values(|e: (String, Value)| (e.0@, e.1@))
    }
}

/// The field sequence `s` read as a last-write-wins map.
pub open spec fn fields_as_map(s: Seq<(Seq<char>, ValueView)>) -> Map<Seq<char>, ValueView>
    decreases s.len(),
{
    if s.len() == 0 {
        Map::empty()
    } else {
        fields_as_map(s.drop_last()).insert(s.last().0, s.last().1)
    }
}

/// Whether a field name occurs in the field sequence `s`.
pub open spec fn fields_has_key(s: Seq<(Seq<char>, ValueView)>, k: Seq<char>) -> bool {
    exists|i: int| 0 <= i < s.len() && s[i].0 == k
}

/// Whether every field name in the sequence `s` occurs only once.
pub open spec fn fields_keys_unique(s: Seq<(Seq<char>, ValueView)>) -> bool {
    forall|i: int, j: int| 0 <= i < j < s.len() ==> s[i].0 != s[j].0
}

impl FieldMap {
    /// Whether this map is well formed: its field names are unique.
    pub open spec fn wf(&self) -> bool {
        fields_keys_unique(self@)
    }

    /// An empty field map.
    pub fn new() -> (r: FieldMap)
        ensures
            r@ =~= Seq::<(Seq<char>, ValueView)>::empty(),
            r.wf(),
    {
        let r = FieldMap { entries: Vec::new() };
        proof {
            assert(r@ =~= Seq::<(Seq<char>, ValueView)>::empty());
        }
        r
    }

    /// How many fields the map holds.
    pub fn len(&self) -> (r: usize)
        ensures
            r == self@.len(),
    {
        self.entries.len()
    }

    /// The named fields, in insertion order.
    pub fn pairs(&self) -> (r: &Vec<(String, Value)>)
        ensures
            r@.len() == self@.len(),
            forall|i: int| 0 <= i < self@.len() ==> (#[trigger] r@[i].0@, r@[i].1@) == self@[i],
    {
        &self.entries
    }

    /// Inserts a field: a new name is appended, an existing name's value is
    /// overwritten in place.  The map reading gains exactly this pair.
    pub fn insert(&mut self, k: String, v: Value)
        requires
            old(self).wf(),
        ensures
            final(self).wf(),
            fields_as_map(final(self)@) =~= fields_as_map(old(self)@).insert(k@, v@),
            final(self)@.len() == if fields_has_key(old(self)@, k@) {
                old(self)@.len()
            } else {
                old(self)@.len() + 1
            },
    {
        let ghost old_view = self@;
        let n: usize = self.entries.len();
        let mut i: usize = 0;
        while i < n
            invariant
                0 <= i <= n,
                n == self@.len(),
                self.wf(),
                self@ == old_view,
                old_view == old(self)@,
                forall|j: int| 0 <= j < i ==> self@[j].0 != k@,
            decreases n - i,
        {
            if crate::text::str_eq_str(self.entries[i].0.as_str(), k.as_str()) {
                proof {
                    assert(old_view[i as int].0 == k@);
                    assert(fields_has_key(old_view, k@));
                }
                self.entries.set(i, (k, v));
                proof {
                    assert(self@ =~= old_view.update(i as int, (old_view[i as int].0, self@[i as int].1)));
                    Self::lemma_update_value_is_insert(old_view, i as int, self@[i as int].1);
                }
                return ;
            }
            i = i + 1;
        }
        self.entries.push((k, v));
        proof {
            assert(self@ =~= old_view.push((self@.last().0, self@.last().1)));
            assert(self@.drop_last() =~= old_view);
        }
    }

    /// The value stored for field name `k`, by the map reading.
    pub fn get(&self, k: &str) -> (r: Option<&Value>)
        requires
            self.wf(),
        ensures
            match r {
                Some(v) => fields_as_map(self@).dom().contains(k@) && fields_as_map(self@)[k@]
                    == v@,
                None => !fields_as_map(self@).dom().contains(k@),
            },
    {
        proof {
            Self::lemma_map_matches_keys(self@);
        }
        let n: usize = self.entries.len();
        let mut i: usize = 0;
        while i < n
            invariant
                0 <= i <= n,
                n == self@.len(),
                self.wf(),
                forall|j: int| 0 <= j < i ==> self@[j].0 != k@,
                fields_as_map(self@).dom() =~= Set::new(
                    |kk: Seq<char>| fields_has_key(self@, kk),
                ),
                forall|j: int|
                    0 <= j < self@.len() && fields_keys_unique(self@) ==> fields_as_map(self@)[
                        #[trigger] self@[j].0
                    ] == self@[j].1,
            decreases n - i,
        {
            if crate::text::str_eq_str(self.entries[i].0.as_str(), k) {
                proof {
                    assert(self@[i as int].0 == k@);
                    assert(fields_has_key(self@, k@));
                }
                return Some(&self.entries[i].1);
            }
            i = i + 1;
        }
        None
    }

    /// In a map with unique field names, the map reading agrees with the
    /// pairs.
    proof fn lemma_map_matches_keys(s: Seq<(Seq<char>, ValueView)>)
        requires
            fields_keys_unique(s),
        ensures
            fields_as_map(s).dom() =~= Set::new(|k: Seq<char>| fields_has_key(s, k)),
            forall|j: int| 0 <= j < s.len() ==> fields_as_map(s)[#[trigger] s[j].0] == s[j].1,
        decreases s.len(),
    {
        if s.len() == 0 {
            assert(fields_as_map(s).dom() =~= Set::new(|k: Seq<char>| fields_has_key(s, k)));
        } else {
            let d = s.drop_last();
            assert(fields_keys_unique(d));
            Self::lemma_map_matches_keys(d);
            assert forall|k: Seq<char>|
                fields_as_map(s).dom().contains(k) <==> fields_has_key(s, k) by {
                if fields_as_map(s).dom().contains(k) {
                    if k == s.last().0 {
                        assert(s[s.len() - 1].0 == k);
                    } else {
                        assert(fields_as_map(d).dom().contains(k));
                        assert(fields_has_key(d, k));
                        let i = choose|i: int| 0 <= i < d.len() && d[i].0 == k;
                        assert(s[i].0 == k);
                    }
                }
                if fields_has_key(s, k) {
                    let i = choose|i: int| 0 <= i < s.len() && s[i].0 == k;
                    if i < s.len() - 1 {
                        assert(d[i].0 == k);
                        assert(fields_has_key(d, k));
                        assert(fields_as_map(d).dom().contains(k));
                    }
                }
            }
            assert(fields_as_map(s).dom() =~= Set::new(|k: Seq<char>| fields_has_key(s, k)));
            assert forall|j: int| 0 <= j < s.len() implies fields_as_map(s)[#[trigger] s[j].0]
                == s[j].1 by {
                if j < s.len() - 1 {
                    assert(s[j].0 != s.last().0);
                    assert(d[j] == s[j]);
                    assert(fields_as_map(d)[d[j].0] == d[j].1);
                }
            }
        }
    }

    /// Overwriting the value at a field's own index is, in the map reading,
    /// one insertion of that field.
    proof fn lemma_update_value_is_insert(s: Seq<(Seq<char>, ValueView)>, i: int, v: ValueView)
        requires
            fields_keys_unique(s),
            0 <= i < s.len(),
        ensures
            fields_keys_unique(s.update(i, (s[i].0, v))),
            fields_as_map(s.update(i, (s[i].0, v))) =~= fields_as_map(s).insert(s[i].0, v),
        decreases s.len(),
    {
        let t = s.update(i, (s[i].0, v));
        assert(fields_keys_unique(t));
        Self::lemma_map_matches_keys(s);
        if i == s.len() - 1 {
            assert(t.drop_last() =~= s.drop_last());
        } else {
            assert(t.drop_last() =~= s.drop_last().update(i, (s[i].0, v)));
            assert(fields_keys_unique(s.drop_last()));
            Self::lemma_update_value_is_insert(s.drop_last(), i, v);
            assert(t.last() == s.last());
            assert(fields_as_map(t) =~= fields_as_map(s.drop_last()).insert(s[i].0, v).insert(
                s.last().0,
                s.last().1,
            ));
            assert(s.last().0 != s[i].0);
        }
    }
}

impl Clone for FieldMap {
    /// A clone preserves the mathematical value.
    fn clone(&self) -> (r: Self)
        ensures
            r@ == self@,
    {
        let mut entries: Vec<(String, Value)> = Vec::new();
        let n: usize = self.entries.len();
        let mut i: usize = 0;
        while i < n
            invariant
                0 <= i <= n,
                n == self.entries@.len(),
                entries@.len() == i,
                forall|j: int|
                    0 <= j < i ==> (#[trigger] entries@[j].0@, entries@[j].1@) == (
                        self.entries@[j].0@,
                        self.entries@[j].1@,
                    ),
            decreases n - i,
        {
            let k = self.entries[i].0.clone();
            let v = self.entries[i].1.clone();
            entries.push((k, v));
            i = i + 1;
        }
        let r = FieldMap { entries };
        proof {
            assert(r@ =~= self@);
        }
        r
    }
}

/// A data point: an event name, a timestamp, and named field values.
#[derive(Debug)]
pub struct TraceEvent {
    pub time_ns: i64,
    pub name: String,
    pub fields: FieldMap,
}

/// The mathematical shape of [`TraceEvent`].
pub struct EventView {
    pub time_ns: i64,
    pub name: Seq<char>,
    pub fields: Seq<(Seq<char>, ValueView)>,
}

impl View for TraceEvent {
    type V = EventView;

    open spec fn view(&self) -> EventView {
        EventView { time_ns: self.time_ns, name: self.name@, fields: self.fields@ }
    }
}

impl Clone for TraceEvent {
    /// A clone preserves the mathematical value.
    fn clone(&self) -> (r: Self)
        ensures
            r@ == self@,
    {
        TraceEvent {
            time_ns: self.time_ns,
            name: self.name.clone(),
            fields: self.fields.clone(),
        }
    }
}

/// Every record routed through the fabric is one of these five variants.
#[derive(Debug)]
pub enum IpcMessage {
    TraceSegmentStart(TraceSegmentStart),
    TraceSegmentEnd(TraceSegmentEnd),
    TraceEventSchema(TraceEventSchema),
    TraceEventFieldNamedValues(TraceEventFieldNamedValues),
    TraceEvent(TraceEvent),
}

/// The mathematical shape of [`IpcMessage`].
pub enum IpcMessageView {
    TraceSegmentStart(SegmentStartView),
    TraceSegmentEnd(SegmentEndView),
    TraceEventSchema(EventSchemaView),
    TraceEventFieldNamedValues(NamedValuesView),
    TraceEvent(EventView),
}

impl View for IpcMessage {
    type V = IpcMessageView;

    open spec fn view(&self) -> IpcMessageView {
        match self {
            IpcMessage::TraceSegmentStart(m) => IpcMessageView::TraceSegmentStart(m@),
            IpcMessage::TraceSegmentEnd(m) => IpcMessageView::TraceSegmentEnd(m@),
            IpcMessage::TraceEventSchema(m) => IpcMessageView::TraceEventSchema(m@),
            IpcMessage::TraceEventFieldNamedValues(m) => IpcMessageView::TraceEventFieldNamedValues(
                m@,
            ),
            IpcMessage::TraceEvent(m) => IpcMessageView::TraceEvent(m@),
        }
    }
}

impl Clone for IpcMessage {
    /// A clone preserves the mathematical value.
    fn clone(&self) -> (r: Self)
        ensures
            r@ == self@,
    {
        match self {
            IpcMessage::TraceSegmentStart(m) => IpcMessage::TraceSegmentStart(m.clone()),
            IpcMessage::TraceSegmentEnd(m) => IpcMessage::TraceSegmentEnd(m.clone()),
            IpcMessage::TraceEventSchema(m) => IpcMessage::TraceEventSchema(m.clone()),
            IpcMessage::TraceEventFieldNamedValues(m) => IpcMessage::TraceEventFieldNamedValues(
                m.clone(),
            ),
            IpcMessage::TraceEvent(m) => IpcMessage::TraceEvent(m.clone()),
        }
    }
}

impl From<TraceSegmentStart> for IpcMessage {
    fn from(m: TraceSegmentStart) -> (r: IpcMessage) {
        IpcMessage::TraceSegmentStart(m)
    }
}

impl vstd::std_specs::convert::FromSpecImpl<TraceSegmentStart> for IpcMessage {
    open spec fn obeys_from_spec() -> bool {
        true
    }

    open spec fn from_spec(m: TraceSegmentStart) -> IpcMessage {
        IpcMessage::TraceSegmentStart(m)
    }
}

impl From<TraceSegmentEnd> for IpcMessage {
    fn from(m: TraceSegmentEnd) -> (r: IpcMessage) {
        IpcMessage::TraceSegmentEnd(m)
    }
}

impl vstd::std_specs::convert::FromSpecImpl<TraceSegmentEnd> for IpcMessage {
    open spec fn obeys_from_spec() -> bool {
        true
    }

    open spec fn from_spec(m: TraceSegmentEnd) -> IpcMessage {
        IpcMessage::TraceSegmentEnd(m)
    }
}

impl From<TraceEventSchema> for IpcMessage {
    fn from(m: TraceEventSchema) -> (r: IpcMessage) {
        IpcMessage::TraceEventSchema(m)
    }
}

impl vstd::std_specs::convert::FromSpecImpl<TraceEventSchema> for IpcMessage {
    open spec fn obeys_from_spec() -> bool {
        true
    }

    open spec fn from_spec(m: TraceEventSchema) -> IpcMessage {
        IpcMessage::TraceEventSchema(m)
    }
}

impl From<TraceEventFieldNamedValues> for IpcMessage {
    fn from(m: TraceEventFieldNamedValues) -> (r: IpcMessage) {
        IpcMessage::TraceEventFieldNamedValues(m)
    }
}

impl vstd::std_specs::convert::FromSpecImpl<TraceEventFieldNamedValues> for IpcMessage {
    open spec fn obeys_from_spec() -> bool {
        true
    }

    open spec fn from_spec(m: TraceEventFieldNamedValues) -> IpcMessage {
        IpcMessage::TraceEventFieldNamedValues(m)
    }
}

impl From<TraceEvent> for IpcMessage {
    fn from(m: TraceEvent) -> (r: IpcMessage) {
        IpcMessage::TraceEvent(m)
    }
}

impl vstd::std_specs::convert::FromSpecImpl<TraceEvent> for IpcMessage {
    open spec fn obeys_from_spec() -> bool {
        true
    }

    open spec fn from_spec(m: TraceEvent) -> IpcMessage {
        IpcMessage::TraceEvent(m)
    }
}

/// A routed record: the message itself plus the identity of the segment and
/// source that emitted it.
#[derive(Debug)]
pub struct IpcMessageWithId {
    /// The 128-bit segment identifier; never nil for a routed record.
    pub segment_id: u128,
    pub source_name: String,
    pub msg: IpcMessage,
}

/// The mathematical shape of [`IpcMessageWithId`].
pub struct MessageView {
    pub segment_id: u128,
    pub source_name: Seq<char>,
    pub msg: IpcMessageView,
}

impl View for IpcMessageWithId {
    type V = MessageView;

    open spec fn view(&self) -> MessageView {
        MessageView {
            segment_id: self.segment_id,
            source_name: self.source_name@,
            msg: self.msg@,
        }
    }
}

impl Clone for IpcMessageWithId {
    /// A clone preserves the mathematical value.
    fn clone(&self) -> (r: Self)
        ensures
            r@ == self@,
    {
        IpcMessageWithId {
            segment_id: self.segment_id,
            source_name: self.source_name.clone(),
            msg: self.msg.clone(),
        }
    }
}

} // verus!
