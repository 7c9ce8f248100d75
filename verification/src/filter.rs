//! Filters: conjunctive predicates over a message's segment id, source
//! name and event name, with the `"<seg>/<source>/<event>"` text form.

use vstd::prelude::*;
use vstd::string::StrSliceExecFns;

use crate::error::Error;
use crate::ipc;
use crate::segment_id::{uuid_format, uuid_of, uuid_parse, uuid_text_of};

verus! {

/// A conjunctive predicate over `(segment_id, source_name, event_name)`:
/// an absent component matches anything.
#[derive(Debug)]
pub struct Filter {
    pub segment_id: Option<u128>,
    pub source_name: Option<String>,
    pub event_name: Option<String>,
}

/// The mathematical shape of [`Filter`].
pub struct FilterView {
    pub segment_id: Option<u128>,
    pub source_name: Option<Seq<char>>,
    pub event_name: Option<Seq<char>>,
}

impl View for Filter {
    type V = FilterView;

    open spec fn view(&self) -> FilterView {
        FilterView {
            segment_id: self.segment_id,
            source_name: match self.source_name {
                Some(ref s) => Some(s@),
                None => None,
            },
            event_name: match self.event_name {
                Some(ref s) => Some(s@),
                None => None,
            },
        }
    }
}

impl Clone for Filter {
    /// A clone preserves the mathematical value.
    fn clone(&self) -> (r: Self)
        ensures
            r@ == self@,
    {
        Filter {
            segment_id: self.segment_id,
            source_name: match &self.source_name {
                Some(s) => Some(s.clone()),
                None => None,
            },
            event_name: match &self.event_name {
                Some(s) => Some(s.clone()),
                None => None,
            },
        }
    }
}

impl PartialEq for Filter {
    fn eq(&self, other: &Self) -> (r: bool) {
        let seg_eq: bool = match (&self.segment_id, &other.segment_id) {
            (Some(a), Some(b)) => *a == *b,
            (None, None) => true,
            _ => false,
        };
        let src_eq: bool = match (&self.source_name, &other.source_name) {
            (Some(a), Some(b)) => crate::text::str_eq_str(a.as_str(), b.as_str()),
            (None, None) => true,
            _ => false,
        };
        let evt_eq: bool = match (&self.event_name, &other.event_name) {
            (Some(a), Some(b)) => crate::text::str_eq_str(a.as_str(), b.as_str()),
            (None, None) => true,
            _ => false,
        };
        seg_eq && src_eq && evt_eq
    }
}

impl vstd::std_specs::cmp::PartialEqSpecImpl for Filter {
    open spec fn obeys_eq_spec() -> bool {
        true
    }

    open spec fn eq_spec(&self, other: &Self) -> bool {
        self@ == other@
    }
}

impl Eq for Filter {}

/// Whether a filter admits a message: each present component must agree,
/// and an event-name constraint rejects every message that is not a data
/// event.
pub open spec fn spec_matches(f: FilterView, m: ipc::MessageView) -> bool {
    &&& match f.segment_id {
        Some(id) => id == m.segment_id,
        None => true,
    }
    &&& match f.source_name {
        Some(s) => s == m.source_name,
        None => true,
    }
    &&& match f.event_name {
        Some(e) => match m.msg {
            ipc::IpcMessageView::TraceEvent(ev) => ev.name == e,
            _ => false,
        },
        None => true,
    }
}

/// The filter that matches everything admits every message.
pub proof fn lemma_any_matches_all(m: ipc::MessageView)
    ensures
        spec_matches(
            FilterView { segment_id: None, source_name: None, event_name: None },
            m,
        ),
{
}

/// A filter with an event-name constraint rejects every message that is
/// not a data event.
pub proof fn lemma_event_filter_rejects_metadata(f: FilterView, m: ipc::MessageView)
    requires
        f.event_name is Some,
        !(m.msg is TraceEvent),
    ensures
        !spec_matches(f, m),
{
}

/// The least index at or after `from` holding character `c`; counts up
/// from `from`.
pub open spec fn spec_first_char_index(s: Seq<char>, c: char, from: int) -> int
    decreases s.len() - from,
{
    if from < 0 || from >= s.len() {
        from
    } else if s[from] == c {
        from
    } else {
        spec_first_char_index(s, c, from + 1)
    }
}

/// Whether character `c` occurs in `s`.
pub open spec fn spec_has_char(s: Seq<char>, c: char) -> bool {
    exists|i: int| 0 <= i < s.len() && s[i] == c
}

/// The index of the first occurrence of `c` in `s`, if any.
pub open spec fn spec_char_index(s: Seq<char>, c: char) -> Option<int> {
    if spec_has_char(s, c) {
        Some(spec_first_char_index(s, c, 0))
    } else {
        None
    }
}

/// Walking `spec_first_char_index` past a non-matching prefix.
pub proof fn lemma_first_char_index_step(s: Seq<char>, c: char, i: int)
    requires
        0 <= i < s.len(),
        forall|j: int| 0 <= j < i ==> s[j] != c,
    ensures
        spec_first_char_index(s, c, 0) == spec_first_char_index(s, c, i),
    decreases i,
{
    if i > 0 {
        lemma_first_char_index_step(s, c, i - 1);
        assert(spec_first_char_index(s, c, i - 1) == spec_first_char_index(s, c, i));
    }
}

/// At the first matching index the walk stops.
pub proof fn lemma_first_char_index_at(s: Seq<char>, c: char, i: int)
    requires
        0 <= i < s.len(),
        forall|j: int| 0 <= j < i ==> s[j] != c,
        s[i] == c,
    ensures
        spec_char_index(s, c) == Some(i),
{
    lemma_first_char_index_step(s, c, i);
}

/// The index of the first occurrence of `c` in `s`, if any.
pub(crate) fn find_char(s: &str, c: char) -> (r: Option<usize>)
    ensures
        match r {
            Some(i) => spec_char_index(s@, c) == Some(i as int) && 0 <= i < s@.len() && s@[
                i as int
            ] == c,
            None => spec_char_index(s@, c) is None,
        },
{
    let n: usize = s.unicode_len();
    let mut i: usize = 0;
    while i < n
        invariant
            0 <= i <= n,
            n == s@.len(),
            forall|j: int| 0 <= j < i ==> s@[j] != c,
        decreases n - i,
    {
        if s.get_char(i) == c {
            proof {
                lemma_first_char_index_at(s@, c, i as int);
            }
            return Some(i);
        }
        i = i + 1;
    }
    None
}

/// What parsing filter text yields: the text is split at its first two
/// slashes into segment, source and event components; `*` in a component
/// means "match any"; the segment component must be `*` or a parseable
/// identifier.  Text with fewer than two slashes is rejected as an invalid
/// filter, a bad identifier as an invalid id.
pub open spec fn spec_parse(s: Seq<char>) -> Result<FilterView, Error> {
    match spec_char_index(s, '/') {
        None => Err(Error::InvalidFilter),
        Some(i) => {
            let seg_txt = s.subrange(0, i);
            let rest = s.subrange(i + 1, s.len() as int);
            match spec_char_index(rest, '/') {
                None => Err(Error::InvalidFilter),
                Some(k) => {
                    let src_txt = rest.subrange(0, k);
                    let evt_txt = rest.subrange(k + 1, rest.len() as int);
                    let seg = if seg_txt == "*"@ {
                        Ok(None)
                    } else {
                        match uuid_of(seg_txt) {
                            Some(v) => Ok(Some(v)),
                            None => Err(Error::InvalidUuid),
                        }
                    };
                    match seg {
                        Err(e) => Err(e),
                        Ok(seg) => Ok(
                            FilterView {
                                segment_id: seg,
                                source_name: if src_txt == "*"@ {
                                    None
                                } else {
                                    Some(src_txt)
                                },
                                event_name: if evt_txt == "*"@ {
                                    None
                                } else {
                                    Some(evt_txt)
                                },
                            },
                        ),
                    }
                },
            }
        },
    }
}

/// The text form of a filter: the three components joined by slashes, an
/// absent component written `*`.
pub open spec fn spec_filter_text(f: FilterView) -> Seq<char> {
    let seg = match f.segment_id {
        Some(v) => uuid_text_of(v),
        None => "*"@,
    };
    let src = match f.source_name {
        Some(s) => s,
        None => "*"@,
    };
    let evt = match f.event_name {
        Some(e) => e,
        None => "*"@,
    };
    seg + seq!['/'] + src + seq!['/'] + evt
}

/// Whether a filter's text form parses back to the same filter: the
/// source name must hold no slash, and no present component may read as
/// the wildcard.
pub open spec fn spec_text_faithful(f: FilterView) -> bool {
    &&& match f.source_name {
        Some(s) => !spec_has_char(s, '/') && s != "*"@,
        None => true,
    }
    &&& match f.event_name {
        Some(e) => e != "*"@,
        None => true,
    }
}

impl Filter {
    /// A filter from its three optional components.
    pub fn new(
        segment_id: Option<u128>,
        source_name: Option<String>,
        event_name: Option<String>,
    ) -> (r: Self)
        ensures
            r@ == (FilterView {
                segment_id,
                source_name: match source_name {
                    Some(s) => Some(s@),
                    None => None,
                },
                event_name: match event_name {
                    Some(s) => Some(s@),
                    None => None,
                },
            }),
    {
        Filter { segment_id, source_name, event_name }
    }

    /// The filter that matches every message.
    pub fn any() -> (r: Self)
        ensures
            r@ == (FilterView { segment_id: None, source_name: None, event_name: None }),
    {
        Filter { segment_id: None, source_name: None, event_name: None }
    }

    /// Parses the `"<seg>/<source>/<event>"` text form, by the rules of
    /// [`spec_parse`].
    pub fn parse(filter: &str) -> (r: Result<Filter, Error>)
        ensures
            match r {
                Ok(f) => spec_parse(filter@) == Ok::<FilterView, Error>(f@),
                Err(e) => spec_parse(filter@) == Err::<FilterView, Error>(e),
            },
    {
        let n: usize = filter.unicode_len();
        let i: usize = match find_char(filter, '/') {
            Some(i) => i,
            None => {
                return Err(Error::InvalidFilter);
            }
        };
        let seg_txt: &str = filter.substring_char(0, i);
        let rest: &str = filter.substring_char(i + 1, n);
        let k: usize = match find_char(rest, '/') {
            Some(k) => k,
            None => {
                return Err(Error::InvalidFilter);
            }
        };
        let src_txt: &str = rest.substring_char(0, k);
        let evt_txt: &str = rest.substring_char(k + 1, rest.unicode_len());
        let segment_id: Option<u128> = if crate::text::str_eq_str(seg_txt, "*") {
            None
        } else {
            match uuid_parse(seg_txt) {
                Some(v) => Some(v),
                None => {
                    return Err(Error::InvalidUuid);
                }
            }
        };
        let source_name: Option<String> = if crate::text::str_eq_str(src_txt, "*") {
            None
        } else {
            Some(src_txt.to_owned())
        };
        let event_name: Option<String> = if crate::text::str_eq_str(evt_txt, "*") {
            None
        } else {
            Some(evt_txt.to_owned())
        };
        Ok(Filter { segment_id, source_name, event_name })
    }

    /// The `"<seg>/<source>/<event>"` text form of this filter.  For a
    /// faithful filter the text parses back to the same filter.
    pub fn to_text(&self) -> (r: String)
        ensures
            r@ == spec_filter_text(self@),
            spec_text_faithful(self@) ==> spec_parse(r@) == Ok::<FilterView, Error>(self@),
    {
        let ghost f = self@;
        let mut out: String = match self.segment_id {
            Some(v) => uuid_format(v),
            None => {
                let s = "*".to_owned();
                proof {
                    reveal_strlit("*");
                }
                s
            }
        };
        let ghost seg = out@;
        proof {
            reveal_strlit("*");
            reveal_strlit("/");
            assert(!spec_has_char(seg, '/')) by {
                if self.segment_id is None {
                    assert(seg.len() == 1);
                    assert(seg[0] == '*');
                }
            }
            assert("/"@ =~= seq!['/']);
        }
        out.append("/");
        match &self.source_name {
            Some(s) => out.append(s.as_str()),
            None => out.append("*"),
        }
        let ghost src = match f.source_name {
            Some(s) => s,
            None => "*"@,
        };
        proof {
            assert(out@ =~= seg + seq!['/'] + src);
        }
        out.append("/");
        match &self.event_name {
            Some(s) => out.append(s.as_str()),
            None => out.append("*"),
        }
        let ghost evt = match f.event_name {
            Some(e) => e,
            None => "*"@,
        };
        proof {
            assert(out@ =~= seg + seq!['/'] + src + seq!['/'] + evt);
            assert(out@ =~= spec_filter_text(f));
            if spec_text_faithful(f) {
                lemma_text_parses(f, out@, seg, src, evt);
            }
        }
        out
    }

    /// Whether this filter admits a message, by [`spec_matches`].
    pub fn matches(&self, msg: &ipc::IpcMessageWithId) -> (r: bool)
        ensures
            r == spec_matches(self@, msg@),
    {
        match self.segment_id {
            Some(segment_id) => {
                if segment_id != msg.segment_id {
                    return false;
                }
            }
            None => {}
        }
        match &self.source_name {
            Some(match_source_name) => {
                if !crate::text::str_eq_str(match_source_name.as_str(), msg.source_name.as_str()) {
                    return false;
                }
            }
            None => {}
        }
        match (&self.event_name, &msg.msg) {
            (Some(event_name), ipc::IpcMessage::TraceEvent(e)) => {
                if !crate::text::str_eq_str(event_name.as_str(), e.name.as_str()) {
                    return false;
                }
            }
            (Some(_), _) => {
                return false;
            }
            _ => {}
        }
        true
    }
}

/// The text form of a faithful filter, split at its first two slashes,
/// reads back as the same filter.
proof fn lemma_text_parses(f: FilterView, s: Seq<char>, seg: Seq<char>, src: Seq<char>, evt: Seq<char>)
    requires
        spec_text_faithful(f),
        !spec_has_char(seg, '/'),
        seg == match f.segment_id {
            Some(v) => uuid_text_of(v),
            None => "*"@,
        },
        src == match f.source_name {
            Some(ss) => ss,
            None => "*"@,
        },
        evt == match f.event_name {
            Some(e) => e,
            None => "*"@,
        },
        s == seg + seq!['/'] + src + seq!['/'] + evt,
        match f.segment_id {
            Some(v) => {
                &&& seg.len() == 36
                &&& uuid_of(seg) == Some(v)
                &&& forall|i: int| 0 <= i < seg.len() ==> seg[i] != '/'
            },
            None => true,
        },
    ensures
        spec_parse(s) == Ok::<FilterView, Error>(f),
{
    reveal_strlit("*");
    assert("*"@.len() == 1);
    assert("*"@[0] == '*');
    let a = seg.len() as int;
    assert(s[a] == '/');
    assert forall|j: int| 0 <= j < a implies s[j] != '/' by {
        assert(s[j] == seg[j]);
    }
    lemma_first_char_index_at(s, '/', a);
    assert(s.subrange(0, a) =~= seg);
    let rest = s.subrange(a + 1, s.len() as int);
    assert(rest =~= src + seq!['/'] + evt);
    let b = src.len() as int;
    assert(rest[b] == '/');
    assert forall|j: int| 0 <= j < b implies rest[j] != '/' by {
        assert(rest[j] == src[j]);
        match f.source_name {
            Some(ss) => {
                assert(!spec_has_char(ss, '/'));
            }
            None => {}
        }
    }
    lemma_first_char_index_at(rest, '/', b);
    assert(rest.subrange(0, b) =~= src);
    assert(rest.subrange(b + 1, rest.len() as int) =~= evt);
    match f.segment_id {
        Some(v) => {
            assert(seg != "*"@) by {
                assert(seg.len() == 36);
            }
        }
        None => {
            assert(seg =~= "*"@);
        }
    }
    match f.source_name {
        Some(ss) => {
            assert(src != "*"@);
        }
        None => {
            assert(src =~= "*"@);
        }
    }
    match f.event_name {
        Some(e) => {
            assert(evt != "*"@);
        }
        None => {
            assert(evt =~= "*"@);
        }
    }
}

} // verus!
