//! Signal keys: the `"<seg>/<source>/<event>.<field>"` text form that
//! names one signal, possibly with a wildcard segment.

use vstd::prelude::*;
use vstd::string::StrSliceExecFns;

use crate::error::Error;
use crate::filter::{spec_char_index, spec_has_char};
use crate::segment_id::{uuid_of, uuid_parse};

verus! {

/// The segment component of a signal key: a concrete segment or any.
#[derive(Debug)]
pub enum PathSegment {
    Wildcard,
    Uuid { uuid: u128 },
}

/// The mathematical shape of [`PathSegment`].
pub enum PathSegmentView {
    Wildcard,
    Uuid(u128),
}

impl View for PathSegment {
    type V = PathSegmentView;

    open spec fn view(&self) -> PathSegmentView {
        match self {
            PathSegment::Wildcard => PathSegmentView::Wildcard,
            PathSegment::Uuid { uuid } => PathSegmentView::Uuid(*uuid),
        }
    }
}

impl Clone for PathSegment {
    /// A clone preserves the mathematical value.
    fn clone(&self) -> (r: Self)
        ensures
            r@ == self@,
    {
        match self {
            PathSegment::Wildcard => PathSegment::Wildcard,
            PathSegment::Uuid { uuid } => PathSegment::Uuid { uuid: *uuid },
        }
    }
}

/// A key that names one signal: a segment (or wildcard), a source, a
/// message, and a signal name.
#[derive(Debug)]
pub struct SignalKey {
    pub data_segment_id: PathSegment,
    pub source: String,
    pub message: String,
    pub signal: String,
}

/// The mathematical shape of [`SignalKey`].
pub struct SignalKeyView {
    pub data_segment_id: PathSegmentView,
    pub source: Seq<char>,
    pub message: Seq<char>,
    pub signal: Seq<char>,
}

impl View for SignalKey {
    type V = SignalKeyView;

    open spec fn view(&self) -> SignalKeyView {
        SignalKeyView {
            data_segment_id: self.data_segment_id@,
            source: self.source@,
            message: self.message@,
            signal: self.signal@,
        }
    }
}

impl Clone for SignalKey {
    /// A clone preserves the mathematical value.
    fn clone(&self) -> (r: Self)
        ensures
            r@ == self@,
    {
        SignalKey {
            data_segment_id: self.data_segment_id.clone(),
            source: self.source.clone(),
            message: self.message.clone(),
            signal: self.signal.clone(),
        }
    }
}

/// Whether a character may stand in a key's segment component: an ASCII
/// letter or digit, an underscore, a star or a hyphen.
pub open spec fn spec_is_segment_char(c: char) -> bool {
    ||| 'a' <= c <= 'z'
    ||| 'A' <= c <= 'Z'
    ||| '0' <= c <= '9'
    ||| c == '_'
    ||| c == '*'
    ||| c == '-'
}

/// Whether a character may stand in a key's segment component.
fn is_segment_char(c: char) -> (r: bool)
    ensures
        r == spec_is_segment_char(c),
{
    ('a' <= c && c <= 'z') || ('A' <= c && c <= 'Z') || ('0' <= c && c <= '9') || c == '_' || c
        == '*' || c == '-'
}

/// What parsing signal-key text yields.  The text splits at its first
/// slash, the next slash, and the first dot after that: the segment
/// component holds only word characters, stars and hyphens and is `*` or
/// a parseable identifier; the source holds no slash and no dot; the
/// message holds no dot; the signal is non-empty and holds no newline.
pub open spec fn spec_parse_signal_key(s: Seq<char>) -> Result<SignalKeyView, Error> {
    match spec_char_index(s, '/') {
        None => Err(Error::InvalidSignalKey),
        Some(i) => {
            let seg_txt = s.subrange(0, i);
            let rest = s.subrange(i + 1, s.len() as int);
            if i == 0 || exists|k: int| 0 <= k < seg_txt.len() && !spec_is_segment_char(
                #[trigger] seg_txt[k],
            ) {
                Err(Error::InvalidSignalKey)
            } else {
                match spec_char_index(rest, '/') {
                    None => Err(Error::InvalidSignalKey),
                    Some(k) => {
                        let src = rest.subrange(0, k);
                        let tail = rest.subrange(k + 1, rest.len() as int);
                        if k == 0 || spec_has_char(src, '.') {
                            Err(Error::InvalidSignalKey)
                        } else {
                            match spec_char_index(tail, '.') {
                                None => Err(Error::InvalidSignalKey),
                                Some(d) => {
                                    let message = tail.subrange(0, d);
                                    let signal = tail.subrange(d + 1, tail.len() as int);
                                    if d == 0 || signal.len() == 0 || spec_has_char(signal, '\n') {
                                        Err(Error::InvalidSignalKey)
                                    } else if seg_txt == "*"@ {
                                        Ok(
                                            SignalKeyView {
                                                data_segment_id: PathSegmentView::Wildcard,
                                                source: src,
                                                message,
                                                signal,
                                            },
                                        )
                                    } else {
                                        match uuid_of(seg_txt) {
                                            Some(v) => Ok(
                                                SignalKeyView {
                                                    data_segment_id: PathSegmentView::Uuid(v),
                                                    source: src,
                                                    message,
                                                    signal,
                                                },
                                            ),
                                            None => Err(Error::InvalidUuid),
                                        }
                                    }
                                },
                            }
                        }
                    },
                }
            }
        },
    }
}

/// Whether every character of `s` may stand in a segment component.
fn all_segment_chars(s: &str) -> (r: bool)
    ensures
        r == !(exists|k: int| 0 <= k < s@.len() && !spec_is_segment_char(#[trigger] s@[k])),
{
    let n: usize = s.unicode_len();
    let mut i: usize = 0;
    while i < n
        invariant
            0 <= i <= n,
            n == s@.len(),
            forall|k: int| 0 <= k < i ==> spec_is_segment_char(#[trigger] s@[k]),
        decreases n - i,
    {
        if !is_segment_char(s.get_char(i)) {
            return false;
        }
        i = i + 1;
    }
    true
}

/// Whether `s` holds the character `c`.
fn has_char(s: &str, c: char) -> (r: bool)
    ensures
        r == spec_has_char(s@, c),
{
    match crate::filter::find_char(s, c) {
        Some(_) => true,
        None => false,
    }
}

impl SignalKey {
    /// Parses the `"<seg>/<source>/<event>.<field>"` text form, by the
    /// rules of [`spec_parse_signal_key`].
    pub fn try_parse(value: &str) -> (r: Result<SignalKey, Error>)
        ensures
            match r {
                Ok(key) => spec_parse_signal_key(value@) == Ok::<SignalKeyView, Error>(key@),
                Err(e) => spec_parse_signal_key(value@) == Err::<SignalKeyView, Error>(e),
            },
    {
        let n: usize = value.unicode_len();
        let i: usize = match crate::filter::find_char(value, '/') {
            Some(i) => i,
            None => {
                return Err(Error::InvalidSignalKey);
            }
        };
        let seg_txt: &str = value.substring_char(0, i);
        let rest: &str = value.substring_char(i + 1, n);
        if i == 0 || !all_segment_chars(seg_txt) {
            return Err(Error::InvalidSignalKey);
        }
        let k: usize = match crate::filter::find_char(rest, '/') {
            Some(k) => k,
            None => {
                return Err(Error::InvalidSignalKey);
            }
        };
        let src: &str = rest.substring_char(0, k);
        let tail: &str = rest.substring_char(k + 1, rest.unicode_len());
        if k == 0 || has_char(src, '.') {
            return Err(Error::InvalidSignalKey);
        }
        let d: usize = match crate::filter::find_char(tail, '.') {
            Some(d) => d,
            None => {
                return Err(Error::InvalidSignalKey);
            }
        };
        let message: &str = tail.substring_char(0, d);
        let signal: &str = tail.substring_char(d + 1, tail.unicode_len());
        if d == 0 || signal.unicode_len() == 0 || has_char(signal, '\n') {
            return Err(Error::InvalidSignalKey);
        }
        let data_segment_id: PathSegment = if crate::text::str_eq_str(seg_txt, "*") {
            PathSegment::Wildcard
        } else {
            match uuid_parse(seg_txt) {
                Some(v) => PathSegment::Uuid { uuid: v },
                None => {
                    return Err(Error::InvalidUuid);
                }
            }
        };
        Ok(
            SignalKey {
                data_segment_id,
                source: src.to_owned(),
                message: message.to_owned(),
                signal: signal.to_owned(),
            },
        )
    }

    /// Whether this key names the signal `(segment, source, message,
    /// signal)`: a wildcard segment matches any segment, everything else
    /// must agree.
    pub fn matches_parts(
        &self,
        data_segment_id: u128,
        source: &str,
        message: &str,
        signal: &str,
    ) -> (r: bool)
        ensures
            r == ({
                &&& match self@.data_segment_id {
                    PathSegmentView::Wildcard => true,
                    PathSegmentView::Uuid(v) => v == data_segment_id,
                }
                &&& self@.source == source@
                &&& self@.message == message@
                &&& self@.signal == signal@
            }),
    {
        let seg_ok: bool = match &self.data_segment_id {
            PathSegment::Wildcard => true,
            PathSegment::Uuid { uuid } => *uuid == data_segment_id,
        };
        seg_ok && crate::text::str_eq_str(self.source.as_str(), source) && crate::text::str_eq_str(
            self.message.as_str(),
            message,
        ) && crate::text::str_eq_str(self.signal.as_str(), signal)
    }
}

} // verus!
