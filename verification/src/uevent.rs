//! Kernel uevent messages: NUL-separated `KEY=value` properties, preceded
//! by a fixed-size header when the message comes from udev.

use vstd::prelude::*;
use vstd::utf8::{decode_utf8, valid_utf8};
use crate::text::{chars_eq, chars_of, slice_chars, string_of};

verus! {

/// Text of the properties of an event, first occurrence of a key first.
pub open spec fn props_map(s: Seq<(Seq<char>, Seq<char>)>) -> Map<Seq<char>, Seq<char>>
    decreases s.len(),
{
    if s.len() == 0 {
        Map::empty()
    } else {
        props_map(s.drop_first()).insert(s[0].0, s[0].1)
    }
}

/// A key is present exactly when some entry has it, and its value is that
/// of the first such entry.
proof fn lemma_props_map_lookup(s: Seq<(Seq<char>, Seq<char>)>, k: Seq<char>, i: int)
    requires
        0 <= i <= s.len(),
        forall|j: int| 0 <= j < i ==> s[j].0 != k,
    ensures
        i < s.len() && s[i].0 == k ==> props_map(s).dom().contains(k) && props_map(s)[k] == s[i].1,
        i == s.len() ==> !props_map(s).dom().contains(k),
    decreases s.len(),
{
    if s.len() > 0 && i > 0 {
        lemma_props_map_lookup(s.drop_first(), k, i - 1);
    }
}

/// Replacing the value of the first entry with key `k` sets `k`.
proof fn lemma_props_map_update(s: Seq<(Seq<char>, Seq<char>)>, i: int, k: Seq<char>, v: Seq<char>)
    requires
        0 <= i < s.len(),
        s[i].0 == k,
        forall|j: int| 0 <= j < i ==> s[j].0 != k,
    ensures
        props_map(s.update(i, (k, v))) == props_map(s).insert(k, v),
    decreases s.len(),
{
    let t = s.update(i, (k, v));
    if i == 0 {
        assert(t.drop_first() =~= s.drop_first());
        assert(t[0] == (k, v));
        assert(props_map(s) == props_map(s.drop_first()).insert(s[0].0, s[0].1));
        assert(props_map(t) == props_map(t.drop_first()).insert(k, v));
        assert(props_map(t) =~= props_map(s).insert(k, v));
    } else {
        assert(t.drop_first() =~= s.drop_first().update(i - 1, (k, v)));
        lemma_props_map_update(s.drop_first(), i - 1, k, v);
        assert(props_map(t) =~= props_map(s).insert(k, v));
    }
}

/// Appending an entry with a key not yet present sets that key.
proof fn lemma_props_map_push(s: Seq<(Seq<char>, Seq<char>)>, k: Seq<char>, v: Seq<char>)
    requires
        forall|j: int| 0 <= j < s.len() ==> s[j].0 != k,
    ensures
        props_map(s.push((k, v))) == props_map(s).insert(k, v),
    decreases s.len(),
{
    let t = s.push((k, v));
    if s.len() == 0 {
        assert(t.drop_first() =~= Seq::<(Seq<char>, Seq<char>)>::empty());
        assert(t[0] == (k, v));
        assert(props_map(t) == props_map(t.drop_first()).insert(k, v));
        assert(props_map(t) =~= props_map(s).insert(k, v));
    } else {
        assert(t.drop_first() =~= s.drop_first().push((k, v)));
        lemma_props_map_push(s.drop_first(), k, v);
        assert(props_map(t) =~= props_map(s).insert(k, v));
    }
}

/// What an event is: whether it came from udev, and its properties.
pub ghost struct EventView {
    pub udev: bool,
    pub props: Map<Seq<char>, Seq<char>>,
}

/// A uevent: where it came from and its properties.
#[derive(Debug)]
pub struct EventData {
    pub udev: bool,
    properties: Vec<(String, String)>,
}

impl View for EventData {
    type V = EventView;

    closed spec fn view(&self) -> EventView {
        EventView {
            udev: self.udev,
            props: props_map(self.properties@.map_values(|p: (String, String)| (p.0@, p.1@))),
        }
    }
}

/// Index of the first `'='` in `s`.
pub open spec fn first_eq(s: Seq<char>) -> Option<nat>
    decreases s.len(),
{
    if s.len() == 0 {
        None
    } else if s[0] == '=' {
        Some(0)
    } else {
        match first_eq(s.drop_first()) {
            Some(i) => Some(i + 1),
            None => None,
        }
    }
}

/// The (key, value) that one property of a message holds: valid UTF-8
/// text, split at its first `'='`.
pub open spec fn prop_of(seg: Seq<u8>) -> Option<(Seq<char>, Seq<char>)> {
    if valid_utf8(seg) {
        let s = decode_utf8(seg);
        match first_eq(s) {
            Some(i) => Some((s.take(i as int), s.skip(i as int + 1))),
            None => None,
        }
    } else {
        None
    }
}

/// Length of the property at the start of `d`: up to its first NUL byte.
pub open spec fn seg_len(d: Seq<u8>) -> nat
    decreases d.len(),
{
    if d.len() == 0 || d[0] == 0 {
        0
    } else {
        1 + seg_len(d.drop_first())
    }
}

/// The properties of `d`, inserted one after the other into `m`: a key
/// given twice keeps its last value; parts that are not properties are
/// passed over.
pub open spec fn fold_props(m: Map<Seq<char>, Seq<char>>, d: Seq<u8>) -> Map<
    Seq<char>,
    Seq<char>,
>
    decreases d.len(),
{
    if d.len() == 0 {
        m
    } else {
        let n = seg_len(d);
        proof {
            lemma_seg_len(d);
        }
        let m2 = match prop_of(d.take(n as int)) {
            Some(p) => m.insert(p.0, p.1),
            None => m,
        };
        if n < d.len() {
            fold_props(m2, d.skip(n as int + 1))
        } else {
            m2
        }
    }
}

pub proof fn lemma_seg_len(d: Seq<u8>)
    ensures
        seg_len(d) <= d.len(),
        seg_len(d) < d.len() ==> d[seg_len(d) as int] == 0,
        forall|j: int| 0 <= j < seg_len(d) ==> d[j] != 0,
    decreases d.len(),
{
    if d.len() > 0 && d[0] != 0 {
        lemma_seg_len(d.drop_first());
        assert forall|j: int| 0 <= j < seg_len(d) implies d[j] != 0 by {
            if j > 0 {
                assert(d[j] == d.drop_first()[j - 1]);
            }
        }
    }
}

/// What a read gives back of a write: after `insert(key, value)`, `get(key)`
/// gives `value`, and `get` of any other key gives what it gave before.
pub proof fn lemma_get_after_insert(ev: EventView, key: Seq<char>, value: Seq<char>, other: Seq<char>)
    ensures
        (EventView { props: ev.props.insert(key, value), ..ev }).props.dom().contains(key),
        (EventView { props: ev.props.insert(key, value), ..ev }).props[key] == value,
        other != key ==> ((EventView { props: ev.props.insert(key, value), ..ev }).props.dom().contains(
            other,
        ) == ev.props.dom().contains(other) && (ev.props.dom().contains(other) ==> (EventView {
            props: ev.props.insert(key, value),
            ..ev
        }).props[other] == ev.props[other])),
{
}

/// Size of the header of a message from udev.
pub open spec fn udev_header_len() -> nat {
    40
}

/// The event that a received message describes: `None` for an empty
/// message, or a udev message shorter than its header.
pub open spec fn message_event(data: Seq<u8>, udev: bool) -> Option<EventView> {
    if data.len() == 0 || (udev && data.len() < udev_header_len()) {
        None
    } else {
        let body = if udev {
            data.skip(udev_header_len() as int)
        } else {
            data
        };
        Some(EventView { udev, props: fold_props(Map::empty(), body) })
    }
}

/// `std::str::from_utf8`. Its documentation: it succeeds exactly when the
/// bytes are valid UTF-8, and then gives the text they encode.
#[verifier::external_body]
fn str_from_utf8(data: &[u8]) -> (r: Option<&str>)
    ensures
        match r {
            Some(s) => valid_utf8(data@) && s@ == decode_utf8(data@),
            None => !valid_utf8(data@),
        },
{
    std::str::from_utf8(data).ok()
}

impl EventData {
    /// An event with no properties.
    pub fn new(udev: bool) -> (e: EventData)
        ensures
            e@.udev == udev,
            e@.props == Map::<Seq<char>, Seq<char>>::empty(),
    {
        EventData { udev, properties: Vec::new() }
    }

    /// Whether the event came from udev.
    pub fn is_udev(&self) -> (b: bool)
        ensures
            b == self@.udev,
    {
        self.udev
    }

    spec fn entries(&self) -> Seq<(Seq<char>, Seq<char>)> {
        self.properties@.map_values(|p: (String, String)| (p.0@, p.1@))
    }

    /// Index of the first property named `key`, if any.
    fn find(&self, key: &[char]) -> (r: Option<usize>)
        ensures
            match r {
                Some(i) => i < self.entries().len() && self.entries()[i as int].0 == key@ && forall|
                    j: int,
                | 0 <= j < i ==> self.entries()[j].0 != key@,
                None => forall|j: int|
                    0 <= j < self.entries().len() ==> self.entries()[j].0 != key@,
            },
    {
        let mut i: usize = 0;
        while i < self.properties.len()
            invariant
                i <= self.properties.len(),
                forall|j: int| 0 <= j < i ==> self.entries()[j].0 != key@,
            decreases self.properties.len() - i,
        {
            let k = chars_of(self.properties[i].0.as_str());
            if chars_eq(k.as_slice(), key) {
                return Some(i);
            }
            i = i + 1;
        }
        None
    }

    /// Sets the property `key` to `value`.
    pub fn insert(&mut self, key: &str, value: &str)
        ensures
            final(self)@ == (EventView {
                props: old(self)@.props.insert(key@, value@),
                ..old(self)@
            }),
    {
        let kc = chars_of(key);
        let k = string_of(kc.as_slice());
        let v = string_of(chars_of(value).as_slice());
        let ghost s = self.entries();
        match self.find(kc.as_slice()) {
            Some(i) => {
                self.properties.set(i, (k, v));
                proof {
                    lemma_props_map_update(s, i as int, key@, value@);
                    assert(self.entries() =~= s.update(i as int, (key@, value@)));
                }
            },
            None => {
                self.properties.push((k, v));
                proof {
                    lemma_props_map_push(s, key@, value@);
                    assert(self.entries() =~= s.push((key@, value@)));
                }
            },
        }
    }

    /// The value of the property `key`, if the event has it.
    pub fn get(&self, key: &str) -> (r: Option<&str>)
        ensures
            match r {
                Some(v) => self@.props.dom().contains(key@) && self@.props[key@] == v@,
                None => !self@.props.dom().contains(key@),
            },
    {
        let kc = chars_of(key);
        match self.find(kc.as_slice()) {
            Some(i) => {
                proof {
                    lemma_props_map_lookup(self.entries(), key@, i as int);
                }
                Some(self.properties[i].1.as_str())
            },
            None => {
                proof {
                    lemma_props_map_lookup(self.entries(), key@, self.entries().len() as int);
                }
                None
            },
        }
    }

    /// The `DEVPATH` property.
    pub fn devpath(&self) -> (r: Option<&str>)
        ensures
            match r {
                Some(v) => self@.props.dom().contains(devpath_key()) && self@.props[devpath_key()]
                    == v@,
                None => !self@.props.dom().contains(devpath_key()),
            },
    {
        proof {
            reveal_strlit("DEVPATH");
            assert("DEVPATH"@ =~= devpath_key());
        }
        self.get("DEVPATH")
    }

    /// The key and value of one property: the bytes as UTF-8 text, split at
    /// the first `'='`.
    pub fn parse_prop(data: &[u8]) -> (r: Option<(String, String)>)
        ensures
            match r {
                Some(p) => prop_of(data@) == Some((p.0@, p.1@)),
                None => prop_of(data@) is None,
            },
    {
        match str_from_utf8(data) {
            Some(s) => {
                let c = chars_of(s);
                let mut i: usize = 0;
                assert(c@.skip(0) =~= c@);
                while i < c.len() && c[i] != '='
                    invariant
                        i <= c.len(),
                        c@ == decode_utf8(data@),
                        first_eq(c@) == match first_eq(c@.skip(i as int)) {
                            Some(j) => Some((j + i) as nat),
                            None => None,
                        },
                    decreases c.len() - i,
                {
                    assert(c@.skip(i as int).drop_first() =~= c@.skip(i + 1));
                    i = i + 1;
                }
                if i < c.len() {
                    let key = slice_chars(&c, 0, i);
                    let value = slice_chars(&c, i + 1, c.len());
                    assert(value@ =~= c@.skip(i + 1));
                    Some((string_of(key.as_slice()), string_of(value.as_slice())))
                } else {
                    None
                }
            },
            None => None,
        }
    }

    /// The event that a received message describes (see `message_event`).
    pub fn parse_message(data: &[u8], udev: bool) -> (r: Option<EventData>)
        ensures
            match r {
                Some(e) => message_event(data@, udev) == Some(e@),
                None => message_event(data@, udev) is None,
            },
    {
        let header_size: usize = 8 + (8 * 4);
        if data.len() == 0 {
            return None;
        } else if udev && data.len() < header_size {
            return None;
        }
        let mut offset: usize = 0;
        if udev {
            offset = offset + header_size;
        }
        let ghost body = data@.skip(offset as int);
        let mut event = EventData::new(udev);
        loop
            invariant
                offset <= data.len(),
                data.len() > 0,
                !(udev && data.len() < udev_header_len()),
                event@.udev == udev,
                body == (if udev {
                    data@.skip(udev_header_len() as int)
                } else {
                    data@
                }),
                fold_props(Map::empty(), body) == fold_props(event@.props, data@.skip(offset as int)),
            decreases data.len() - offset,
        {
            if offset >= data.len() {
                assert(data@.skip(offset as int) =~= Seq::<u8>::empty());
                assert(fold_props(event@.props, data@.skip(offset as int)) == event@.props);
                return Some(event);
            }
            let ghost d = data@.skip(offset as int);
            let mut end = offset;
            while end < data.len() && data[end] != 0
                invariant
                    offset <= end <= data.len(),
                    d == data@.skip(offset as int),
                    seg_len(d) == (end - offset) + seg_len(data@.skip(end as int)),
                decreases data.len() - end,
            {
                assert(data@.skip(end as int).drop_first() =~= data@.skip(end + 1));
                end = end + 1;
            }
            let ghost n = (end - offset) as int;
            assert(seg_len(d) == n);
            let seg = slice_bytes(data, offset, end);
            assert(seg@ =~= d.take(n));
            let ghost before = event@.props;
            match EventData::parse_prop(seg.as_slice()) {
                Some((k, v)) => {
                    event.insert(k.as_str(), v.as_str());
                },
                None => {},
            }
            let ghost m2 = match prop_of(d.take(n)) {
                Some(p) => before.insert(p.0, p.1),
                None => before,
            };
            assert(event@.props == m2);
            assert(fold_props(before, d) == (if n < d.len() {
                fold_props(m2, d.skip(n + 1))
            } else {
                m2
            }));
            if end >= data.len() {
                assert(fold_props(Map::empty(), body) == event@.props);
                return Some(event);
            }
            assert(d.skip(n + 1) =~= data@.skip(end + 1));
            offset = end + 1;
        }
    }
}

/// The bytes `d[i..j]`.
fn slice_bytes(d: &[u8], i: usize, j: usize) -> (r: Vec<u8>)
    requires
        i <= j <= d.len(),
    ensures
        r@ == d@.subrange(i as int, j as int),
{
    let mut r: Vec<u8> = Vec::new();
    let mut k = i;
    while k < j
        invariant
            i <= k <= j <= d.len(),
            r@ == d@.subrange(i as int, k as int),
        decreases j - k,
    {
        r.push(d[k]);
        k = k + 1;
    }
    r
}

/// The key `"DEVPATH"`.
pub open spec fn devpath_key() -> Seq<char> {
    seq!['D', 'E', 'V', 'P', 'A', 'T', 'H']
}

} // verus!
