//! The protocol's value model: the plain data that requests and responses
//! carry. A value is null, a boolean, an integer, a string, an ordered list,
//! or an ordered string-keyed map.

use vstd::prelude::*;

verus! {

/// Mathematical model of an [`RpcValue`].
pub enum ValueView {
    Null,
    Bool(bool),
    Int(int),
    UInt(nat),
    Str(Seq<char>),
    List(Seq<ValueView>),
    Mapping(Seq<(Seq<char>, ValueView)>),
}

/// A protocol value. Lists and maps own their elements; a map is an ordered
/// list of key/value pairs, looked up by the first matching key.
#[derive(Debug)]
pub enum RpcValue {
    Null,
    Bool(bool),
    Int(i64),
    UInt(u64),
    Str(String),
    List(Vec<RpcValue>),
    Mapping(Vec<(String, RpcValue)>),
}

/// Model of a value.
pub open spec fn value_view(v: RpcValue) -> ValueView
    decreases v,
    via value_view_decreases
{
    match v {
        RpcValue::Null => ValueView::Null,
        RpcValue::Bool(b) => ValueView::Bool(b),
        RpcValue::Int(i) => ValueView::Int(i as int),
        RpcValue::UInt(u) => ValueView::UInt(u as nat),
        RpcValue::Str(s) => ValueView::Str(s@),
        RpcValue::List(items) => ValueView::List(list_view(items@)),
        RpcValue::Mapping(entries) => ValueView::Mapping(entries_view(entries@)),
    }
}

/// Models of the values in a list, in order.
pub open spec fn list_view(items: Seq<RpcValue>) -> Seq<ValueView>
    decreases items,
{
    if items.len() == 0 {
        Seq::empty()
    } else {
        seq![value_view(items[0])] + list_view(items.drop_first())
    }
}

/// Models of the entries of a map, in order.
pub open spec fn entries_view(entries: Seq<(String, RpcValue)>) -> Seq<(Seq<char>, ValueView)>
    decreases entries,
{
    if entries.len() == 0 {
        Seq::empty()
    } else {
        seq![(entries[0].0@, value_view(entries[0].1))] + entries_view(entries.drop_first())
    }
}

#[via_fn]
proof fn value_view_decreases(v: RpcValue) {
    broadcast use vstd::std_specs::vec::axiom_vec_decreases_to_view;

    match v {
        RpcValue::List(items) => {
            assert(decreases_to!(v => items));
            assert(decreases_to!(items => items@));
        },
        RpcValue::Mapping(entries) => {
            assert(decreases_to!(v => entries));
            assert(decreases_to!(entries => entries@));
        },
        _ => {},
    }
}

impl View for RpcValue {
    type V = ValueView;

    open spec fn view(&self) -> ValueView {
        value_view(*self)
    }
}

/// The model of a list is as long as the list, element by element.
pub proof fn lemma_list_view(items: Seq<RpcValue>)
    ensures
        list_view(items).len() == items.len(),
        forall|i: int|
            0 <= i < items.len() ==> #[trigger] list_view(items)[i] == value_view(items[i]),
    decreases items.len(),
{
    if items.len() > 0 {
        lemma_list_view(items.drop_first());
        assert forall|i: int| 0 <= i < items.len() implies #[trigger] list_view(items)[i]
            == value_view(items[i]) by {
            if i > 0 {
                assert(items.drop_first()[i - 1] == items[i]);
            }
        }
    }
}

/// The model of a map has one entry per entry of the map, key and value.
pub proof fn lemma_entries_view(entries: Seq<(String, RpcValue)>)
    ensures
        entries_view(entries).len() == entries.len(),
        forall|i: int|
            0 <= i < entries.len() ==> #[trigger] entries_view(entries)[i] == (
            entries[i].0@,
            value_view(entries[i].1),
            ),
    decreases entries.len(),
{
    if entries.len() > 0 {
        lemma_entries_view(entries.drop_first());
        assert forall|i: int|
            0 <= i < entries.len() implies #[trigger] entries_view(entries)[i] == (
            entries[i].0@,
            value_view(entries[i].1),
        ) by {
            if i > 0 {
                assert(entries.drop_first()[i - 1] == entries[i]);
            }
        }
    }
}

/// First value bound to `key` in an ordered list of map entries, if any.
pub open spec fn map_lookup(entries: Seq<(Seq<char>, ValueView)>, key: Seq<char>) -> Option<
    ValueView,
>
    decreases entries.len(),
{
    if entries.len() == 0 {
        None
    } else if entries[0].0 == key {
        Some(entries[0].1)
    } else {
        map_lookup(entries.drop_first(), key)
    }
}

impl RpcValue {
    /// Whether the value is a list.
    pub fn is_list(&self) -> (r: bool)
        ensures
            r == (self@ is List),
    {
        match self {
            RpcValue::List(_) => true,
            _ => false,
        }
    }

    /// The list items, if the value is a list.
    pub fn as_list(&self) -> (r: Option<&Vec<RpcValue>>)
        ensures
            match r {
                Some(items) => self@ == ValueView::List(list_view(items@)),
                None => !(self@ is List),
            },
    {
        match self {
            RpcValue::List(items) => Some(items),
            _ => None,
        }
    }

    /// The string contents, if the value is a string.
    pub fn as_str(&self) -> (r: Option<&String>)
        ensures
            match r {
                Some(s) => self@ == ValueView::Str(s@),
                None => !(self@ is Str),
            },
    {
        match self {
            RpcValue::Str(s) => Some(s),
            _ => None,
        }
    }

    /// The value read as an unsigned 32-bit mask: an integer in range gives
    /// its value, everything else gives 0.
    pub fn as_u32(&self) -> (r: u32)
        ensures
            r as nat == self@.as_u32_view(),
    {
        match self {
            RpcValue::Int(i) => {
                if 0 <= *i && *i <= u32::MAX as i64 {
                    *i as u32
                } else {
                    0
                }
            },
            RpcValue::UInt(u) => {
                if *u <= u32::MAX as u64 {
                    *u as u32
                } else {
                    0
                }
            },
            _ => 0,
        }
    }

    /// First value bound to `key`, if the value is a map that contains it.
    pub fn map_get<'a>(&'a self, key: &str) -> (r: Option<&'a RpcValue>)
        ensures
            match r {
                Some(v) => self@ is Mapping && map_lookup(self@->Mapping_0, key@) == Some(v@),
                None => self@ is Mapping ==> map_lookup(self@->Mapping_0, key@) is None,
            },
    {
        match self {
            RpcValue::Mapping(entries) => {
                proof {
                    lemma_entries_view(entries@);
                }
                let ghost ev = entries_view(entries@);
                proof {
                    assert(ev.skip(0) =~= ev);
                }
                let mut i: usize = 0;
                while i < entries.len()
                    invariant
                        i <= entries@.len(),
                        self@ == ValueView::Mapping(ev),
                        ev == entries_view(entries@),
                        ev.len() == entries@.len(),
                        forall|j: int|
                            0 <= j < entries@.len() ==> ev[j] == (
                            (#[trigger] entries@[j]).0@,
                            value_view(entries@[j].1),
                            ),
                        map_lookup(ev.skip(i as int), key@) == map_lookup(ev, key@),
                    decreases entries@.len() - i,
                {
                    let hit = crate::strings::str_eq(entries[i].0.as_str(), key);
                    proof {
                        assert(ev.skip(i as int)[0] == ev[i as int]);
                        assert(ev.skip(i as int).drop_first() =~= ev.skip(i as int + 1));
                    }
                    if hit {
                        return Some(&entries[i].1);
                    }
                    i = i + 1;
                }
                proof {
                    assert(ev.skip(i as int) =~= Seq::empty());
                }
                None
            },
            _ => None,
        }
    }
}

impl Clone for RpcValue {
    /// A deep copy with the same model.
    fn clone(&self) -> (r: RpcValue)
        ensures
            r@ == self@,
        decreases *self,
    {
        match self {
            RpcValue::Null => RpcValue::Null,
            RpcValue::Bool(b) => RpcValue::Bool(*b),
            RpcValue::Int(i) => RpcValue::Int(*i),
            RpcValue::UInt(u) => RpcValue::UInt(*u),
            RpcValue::Str(s) => RpcValue::Str(s.clone()),
            RpcValue::List(items) => {
                let mut out: Vec<RpcValue> = Vec::new();
                let mut i: usize = 0;
                proof {
                    lemma_list_view(items@);
                }
                while i < items.len()
                    invariant
                        i <= items@.len(),
                        *self == RpcValue::List(*items),
                        out@.len() == i,
                        forall|j: int|
                            0 <= j < items@.len() ==> #[trigger] list_view(items@)[j]
                                == value_view(items@[j]),
                        forall|j: int|
                            0 <= j < i ==> value_view(#[trigger] out@[j]) == value_view(
                                items@[j],
                            ),
                    decreases items@.len() - i,
                {
                    proof {
                        broadcast use vstd::std_specs::vec::axiom_vec_decreases_to_view;

                        assert(decreases_to!(*self => self->List_0));
                        assert(decreases_to!(self->List_0 => self->List_0@));
                        assert(self->List_0@ == items@);
                        assert(decreases_to!(items@ => items@[i as int]));
                    }
                    out.push(items[i].clone());
                    i = i + 1;
                }
                proof {
                    lemma_list_view(out@);
                    assert(list_view(out@) =~= list_view(items@));
                }
                RpcValue::List(out)
            },
            RpcValue::Mapping(entries) => {
                let mut out: Vec<(String, RpcValue)> = Vec::new();
                let mut i: usize = 0;
                proof {
                    lemma_entries_view(entries@);
                }
                while i < entries.len()
                    invariant
                        i <= entries@.len(),
                        *self == RpcValue::Mapping(*entries),
                        out@.len() == i,
                        forall|j: int|
                            0 <= j < entries@.len() ==> #[trigger] entries_view(entries@)[j] == (
                            entries@[j].0@,
                            value_view(entries@[j].1),
                            ),
                        forall|j: int|
                            0 <= j < i ==> (#[trigger] out@[j]).0@ == entries@[j].0@ && value_view(
                                out@[j].1,
                            ) == value_view(entries@[j].1),
                    decreases entries@.len() - i,
                {
                    proof {
                        broadcast use vstd::std_specs::vec::axiom_vec_decreases_to_view;

                        assert(decreases_to!(*self => self->Mapping_0));
                        assert(decreases_to!(self->Mapping_0 => self->Mapping_0@));
                        assert(self->Mapping_0@ == entries@);
                        assert(decreases_to!(entries@ => entries@[i as int]));
                        assert(decreases_to!(entries@[i as int] => entries@[i as int].1));
                    }
                    let key = entries[i].0.clone();
                    let val = entries[i].1.clone();
                    out.push((key, val));
                    i = i + 1;
                }
                proof {
                    lemma_entries_view(out@);
                    assert(entries_view(out@) =~= entries_view(entries@));
                }
                RpcValue::Mapping(out)
            },
        }
    }
}

impl ValueView {
    /// Model of [`RpcValue::as_u32`].
    pub open spec fn as_u32_view(self) -> nat {
        match self {
            ValueView::Int(i) => if 0 <= i <= u32::MAX as int {
                i as nat
            } else {
                0
            },
            ValueView::UInt(u) => if u <= u32::MAX as nat {
                u
            } else {
                0
            },
            _ => 0,
        }
    }
}

/// The decimal digits of a number, most significant first.
pub open spec fn dec_digits(n: nat) -> Seq<char>
    decreases n,
{
    if n < 10 {
        seq![crate::utils::hex_digit_char(n as u8)]
    } else {
        dec_digits(n / 10) + seq![crate::utils::hex_digit_char((n % 10) as u8)]
    }
}

/// The text form of a value: `null`, `true`/`false`, decimal numbers, a
/// string's own characters, and lists and maps in brackets with their
/// members' text forms comma-separated (map entries as `key:value`).
pub open spec fn text_view(v: ValueView) -> Seq<char>
    decreases v,
    via text_view_decreases
{
    match v {
        ValueView::Null => "null"@,
        ValueView::Bool(b) => if b {
            "true"@
        } else {
            "false"@
        },
        ValueView::Int(i) => if i < 0 {
            "-"@ + dec_digits((0 - i) as nat)
        } else {
            dec_digits(i as nat)
        },
        ValueView::UInt(u) => dec_digits(u),
        ValueView::Str(s) => s,
        ValueView::List(items) => "["@ + list_texts(items) + "]"@,
        ValueView::Mapping(entries) => "{"@ + entry_texts(entries) + "}"@,
    }
}

/// The text forms of list members, comma-separated.
pub open spec fn list_texts(items: Seq<ValueView>) -> Seq<char>
    decreases items,
{
    if items.len() == 0 {
        Seq::empty()
    } else if items.len() == 1 {
        text_view(items[0])
    } else {
        text_view(items[0]) + ","@ + list_texts(items.drop_first())
    }
}

/// The text forms of map entries, comma-separated.
pub open spec fn entry_texts(entries: Seq<(Seq<char>, ValueView)>) -> Seq<char>
    decreases entries,
{
    if entries.len() == 0 {
        Seq::empty()
    } else if entries.len() == 1 {
        entries[0].0 + ":"@ + text_view(entries[0].1)
    } else {
        entries[0].0 + ":"@ + text_view(entries[0].1) + ","@ + entry_texts(entries.drop_first())
    }
}

#[via_fn]
proof fn text_view_decreases(v: ValueView) {
    match v {
        ValueView::List(items) => {
            assert(decreases_to!(v => items));
        },
        ValueView::Mapping(entries) => {
            assert(decreases_to!(v => entries));
        },
        _ => {},
    }
}

proof fn lemma_list_texts_snoc(items: Seq<ValueView>, last: ValueView)
    ensures
        items.len() == 0 ==> list_texts(items.push(last)) =~= text_view(last),
        items.len() > 0 ==> list_texts(items.push(last)) =~= list_texts(items) + ","@ + text_view(
            last,
        ),
    decreases items.len(),
{
    if items.len() == 0 {
        assert(items.push(last)[0] == last);
        assert(items.push(last).len() == 1);
    } else {
        lemma_list_texts_snoc(items.drop_first(), last);
        assert(items.push(last)[0] == items[0]);
        assert(items.push(last).drop_first() =~= items.drop_first().push(last));
        if items.len() == 1 {
            assert(list_texts(items) =~= text_view(items[0]));
        }
    }
}

proof fn lemma_entry_texts_snoc(entries: Seq<(Seq<char>, ValueView)>, last: (Seq<char>, ValueView))
    ensures
        entries.len() == 0 ==> entry_texts(entries.push(last)) =~= last.0 + ":"@ + text_view(
            last.1,
        ),
        entries.len() > 0 ==> entry_texts(entries.push(last)) =~= entry_texts(entries) + ","@
            + last.0 + ":"@ + text_view(last.1),
    decreases entries.len(),
{
    if entries.len() == 0 {
        assert(entries.push(last)[0] == last);
        assert(entries.push(last).len() == 1);
    } else {
        lemma_entry_texts_snoc(entries.drop_first(), last);
        assert(entries.push(last)[0] == entries[0]);
        assert(entries.push(last).drop_first() =~= entries.drop_first().push(last));
        if entries.len() == 1 {
            assert(entry_texts(entries) =~= entries[0].0 + ":"@ + text_view(entries[0].1));
        }
    }
}

/// The decimal rendering of a number.
fn u64_dec_string(n: u64) -> (r: String)
    ensures
        r@ == dec_digits(n as nat),
    decreases n,
{
    if n < 10 {
        crate::utils::hex_digit_str(n as u8).to_owned()
    } else {
        proof {
            assert(n / 10 < n) by (nonlinear_arith)
                requires
                    10 <= n,
            ;
        }
        let mut s = u64_dec_string(n / 10);
        s.append(crate::utils::hex_digit_str((n % 10) as u8));
        s
    }
}

impl RpcValue {
    /// Renders the value in its text form.
    #[verifier::loop_isolation(false)]
    pub fn to_text(&self) -> (r: String)
        ensures
            r@ == text_view(self@),
        decreases *self,
    {
        match self {
            RpcValue::Null => "null".to_owned(),
            RpcValue::Bool(b) => if *b {
                "true".to_owned()
            } else {
                "false".to_owned()
            },
            RpcValue::Int(i) => {
                if *i < 0 {
                    let magnitude: u64 = if *i == i64::MIN {
                        0x8000_0000_0000_0000u64
                    } else {
                        (0i64 - *i) as u64
                    };
                    let mut s = "-".to_owned();
                    s.append(u64_dec_string(magnitude).as_str());
                    s
                } else {
                    u64_dec_string(*i as u64)
                }
            },
            RpcValue::UInt(u) => u64_dec_string(*u),
            RpcValue::Str(s) => s.clone(),
            RpcValue::List(items) => {
                proof {
                    lemma_list_view(items@);
                }
                let ghost lv = list_view(items@);
                let mut out = "[".to_owned();
                let mut i: usize = 0;
                proof {
                    assert(lv.take(0) =~= Seq::empty());
                    assert(out@ =~= "["@ + list_texts(lv.take(0)));
                }
                while i < items.len()
                    invariant
                        i <= items@.len(),
                        out@ =~= "["@ + list_texts(lv.take(i as int)),
                    decreases items@.len() - i,
                {
                    proof {
                        broadcast use vstd::std_specs::vec::axiom_vec_decreases_to_view;

                        assert(decreases_to!(*self => self->List_0));
                        assert(decreases_to!(self->List_0 => self->List_0@));
                        assert(self->List_0@ == items@);
                        assert(decreases_to!(items@ => items@[i as int]));
                        lemma_list_texts_snoc(lv.take(i as int), lv[i as int]);
                        assert(lv.take(i + 1) =~= lv.take(i as int).push(lv[i as int]));
                    }
                    if i > 0 {
                        out.append(",");
                    }
                    let t = items[i].to_text();
                    out.append(t.as_str());
                    i = i + 1;
                }
                proof {
                    assert(lv.take(items@.len() as int) =~= lv);
                }
                out.append("]");
                out
            },
            RpcValue::Mapping(entries) => {
                proof {
                    lemma_entries_view(entries@);
                }
                let ghost ev = entries_view(entries@);
                let mut out = "{".to_owned();
                let mut i: usize = 0;
                proof {
                    assert(ev.take(0) =~= Seq::empty());
                    assert(out@ =~= "{"@ + entry_texts(ev.take(0)));
                }
                while i < entries.len()
                    invariant
                        i <= entries@.len(),
                        out@ =~= "{"@ + entry_texts(ev.take(i as int)),
                    decreases entries@.len() - i,
                {
                    proof {
                        broadcast use vstd::std_specs::vec::axiom_vec_decreases_to_view;

                        assert(decreases_to!(*self => self->Mapping_0));
                        assert(decreases_to!(self->Mapping_0 => self->Mapping_0@));
                        assert(self->Mapping_0@ == entries@);
                        assert(decreases_to!(entries@ => entries@[i as int]));
                        assert(decreases_to!(entries@[i as int] => entries@[i as int].1));
                        lemma_entry_texts_snoc(ev.take(i as int), ev[i as int]);
                        assert(ev.take(i + 1) =~= ev.take(i as int).push(ev[i as int]));
                    }
                    if i > 0 {
                        out.append(",");
                    }
                    out.append(entries[i].0.as_str());
                    out.append(":");
                    let t = entries[i].1.to_text();
                    out.append(t.as_str());
                    i = i + 1;
                }
                proof {
                    assert(ev.take(entries@.len() as int) =~= ev);
                }
                out.append("}");
                out
            },
        }
    }
}

} // verus!
