use vstd::prelude::*;

verus! {

/// An NBT value of the kinds a text component is written with.
#[derive(Debug, PartialEq)]
pub enum NbtValue {
    Byte(i8),
    Str(String),
    List(Vec<NbtValue>),
    /// Named members in insertion order.
    Compound(Vec<(String, NbtValue)>),
}

/// The mathematical value of an `NbtValue`.
pub enum NbtView {
    Byte(i8),
    Str(Seq<char>),
    List(Seq<NbtView>),
    Compound(Seq<(Seq<char>, NbtView)>),
}

pub open spec fn nbt_view(v: NbtValue) -> NbtView
    decreases v,
{
    match v {
        NbtValue::Byte(b) => NbtView::Byte(b),
        NbtValue::Str(s) => NbtView::Str(s@),
        NbtValue::List(items) => NbtView::List(nbt_views(items@)),
        NbtValue::Compound(entries) => NbtView::Compound(nbt_entries_view(entries@)),
    }
}

pub open spec fn nbt_views(vs: Seq<NbtValue>) -> Seq<NbtView>
    decreases vs,
{
    if vs.len() == 0 {
        Seq::empty()
    } else {
        nbt_views(vs.drop_last()).push(nbt_view(vs.last()))
    }
}

pub open spec fn nbt_entries_view(es: Seq<(String, NbtValue)>) -> Seq<(Seq<char>, NbtView)>
    decreases es,
{
    if es.len() == 0 {
        Seq::empty()
    } else {
        nbt_entries_view(es.drop_last()).push((es.last().0@, nbt_view(es.last().1)))
    }
}

impl View for NbtValue {
    type V = NbtView;

    open spec fn view(&self) -> NbtView {
        nbt_view(*self)
    }
}

/// Appends a named member to a compound's member list.
pub fn push_entry(entries: &mut Vec<(String, NbtValue)>, key: &str, value: NbtValue)
    ensures
        nbt_entries_view(final(entries)@) == nbt_entries_view(old(entries)@).push((key@, nbt_view(value))),
{
    entries.push((key.to_owned(), value));
    proof {
        assert(entries@.drop_last() =~= old(entries)@);
    }
}

/// Appends an element to a list.
pub fn push_item(items: &mut Vec<NbtValue>, value: NbtValue)
    ensures
        nbt_views(final(items)@) == nbt_views(old(items)@).push(nbt_view(value)),
{
    items.push(value);
    proof {
        assert(items@.drop_last() =~= old(items)@);
    }
}

} // verus!
