//! A list of HTTP header fields as plain strings, with the edits made to it
//! kept in order so that they can be replayed on the real header map.

use vstd::prelude::*;

verus! {

/// A header field as text: (lower-case name, value).
pub type FieldView = (Seq<char>, Seq<char>);

/// One change made to a header list.
#[derive(Clone, Debug)]
pub enum HeaderEdit {
    /// Every field of this name is replaced by one field with this value.
    Put(String, String),
    /// Every field of this name is dropped.
    Remove(String),
}

/// A header edit as text.
pub enum EditView {
    Put(Seq<char>, Seq<char>),
    Remove(Seq<char>),
}

impl View for HeaderEdit {
    type V = EditView;

    open spec fn view(&self) -> EditView {
        match self {
            HeaderEdit::Put(n, v) => EditView::Put(n@, v@),
            HeaderEdit::Remove(n) => EditView::Remove(n@),
        }
    }
}

/// The first value of a field named `name`, if any.
pub open spec fn header_get(fields: Seq<FieldView>, name: Seq<char>) -> Option<Seq<char>>
    decreases fields.len(),
{
    if fields.len() == 0 {
        None
    } else if fields[0].0 == name {
        Some(fields[0].1)
    } else {
        header_get(fields.drop_first(), name)
    }
}

/// The fields that are not named `name`, in order.
pub open spec fn header_without(fields: Seq<FieldView>, name: Seq<char>) -> Seq<FieldView>
    decreases fields.len(),
{
    if fields.len() == 0 {
        fields
    } else {
        let rest = header_without(fields.drop_last(), name);
        if fields.last().0 == name {
            rest
        } else {
            rest.push(fields.last())
        }
    }
}

/// The fields after every field named `name` is replaced by `(name, value)`.
pub open spec fn header_set(fields: Seq<FieldView>, name: Seq<char>, value: Seq<char>) -> Seq<FieldView> {
    header_without(fields, name).push((name, value))
}

/// Reading the first field of a name after one more field is appended.
pub proof fn lemma_get_push(fields: Seq<FieldView>, f: FieldView, name: Seq<char>)
    ensures
        header_get(fields.push(f), name) == (match header_get(fields, name) {
            Some(v) => Some(v),
            None => if f.0 == name { Some(f.1) } else { None },
        }),
    decreases fields.len(),
{
    if fields.len() > 0 {
        assert(fields.push(f).drop_first() =~= fields.drop_first().push(f));
        assert(fields.push(f)[0] == fields[0]);
        lemma_get_push(fields.drop_first(), f, name);
    } else {
        assert(fields.push(f).drop_first() =~= Seq::<FieldView>::empty());
        assert(fields.push(f)[0] == f);
        reveal_with_fuel(header_get, 2);
    }
}

/// After dropping the fields named `name`, no field of that name is found, and
/// every other name reads as before.
pub proof fn lemma_get_after_remove(fields: Seq<FieldView>, name: Seq<char>, other: Seq<char>)
    ensures
        header_get(header_without(fields, name), name) is None,
        other != name ==> header_get(header_without(fields, name), other) == header_get(fields, other),
    decreases fields.len(),
{
    if fields.len() > 0 {
        let init = fields.drop_last();
        lemma_get_after_remove(init, name, other);
        assert(fields =~= init.push(fields.last()));
        lemma_get_push(init, fields.last(), other);
        if fields.last().0 != name {
            lemma_get_push(header_without(init, name), fields.last(), name);
            lemma_get_push(header_without(init, name), fields.last(), other);
        }
    }
}

/// Read after write: once `name` is set to `value`, the name reads as `value`,
/// and every other name reads as before.
pub proof fn lemma_get_after_set(fields: Seq<FieldView>, name: Seq<char>, value: Seq<char>, other: Seq<char>)
    ensures
        header_get(header_set(fields, name, value), name) == Some(value),
        other != name ==> header_get(header_set(fields, name, value), other) == header_get(fields, other),
{
    lemma_get_after_remove(fields, name, other);
    lemma_get_push(header_without(fields, name), (name, value), name);
    lemma_get_push(header_without(fields, name), (name, value), other);
}


impl HeaderListView {
    /// The recorded edits, replayed on the fields the list was built with,
    /// give its present fields.
    pub open spec fn edits_reproduce_fields(self) -> bool {
        self.fields == replay(self.origin, self.edits)
    }
}

/// Every change of a header list keeps its edit record faithful: replaying the
/// edits on the fields it was built with gives its fields. So applying the
/// edits to the header map the list was read from yields the same headers.
pub proof fn lemma_changes_keep_record(h: HeaderListView, name: Seq<char>, value: Seq<char>)
    requires
        h.edits_reproduce_fields(),
    ensures
        h.put(name, value).edits_reproduce_fields(),
        h.drop(name).edits_reproduce_fields(),
{
    assert(h.put(name, value).edits.drop_last() =~= h.edits);
    assert(h.drop(name).edits.drop_last() =~= h.edits);
}

/// The text view of a list of fields.
pub open spec fn fields_view(v: Seq<(String, String)>) -> Seq<FieldView> {
    v.map_values(|f: (String, String)| (f.0@, f.1@))
}

/// The text view of a list of edits.
pub open spec fn edits_view(v: Seq<HeaderEdit>) -> Seq<EditView> {
    v.map_values(|e: HeaderEdit| e@)
}

/// A list of header fields, and the edits made to it since it was built.
#[derive(Clone)]
pub struct HeaderList {
    origin: Ghost<Seq<FieldView>>,
    fields: Vec<(String, String)>,
    edits: Vec<HeaderEdit>,
}

/// A header list as text: its fields, and the edits made so far.
#[verifier::ext_equal]
pub struct HeaderListView {
    /// The fields the list was built with.
    pub origin: Seq<FieldView>,
    pub fields: Seq<FieldView>,
    pub edits: Seq<EditView>,
}

/// The fields that replaying `edits` in order on `origin` gives.
pub open spec fn replay(origin: Seq<FieldView>, edits: Seq<EditView>) -> Seq<FieldView>
    decreases edits.len(),
{
    if edits.len() == 0 {
        origin
    } else {
        let before = replay(origin, edits.drop_last());
        match edits.last() {
            EditView::Put(n, v) => header_set(before, n, v),
            EditView::Remove(n) => header_without(before, n),
        }
    }
}

impl HeaderListView {
    /// The first value of a field named `name`.
    pub open spec fn get(self, name: Seq<char>) -> Option<Seq<char>> {
        header_get(self.fields, name)
    }

    /// The list after `name` is set to `value`, with the edit recorded.
    pub open spec fn put(self, name: Seq<char>, value: Seq<char>) -> HeaderListView {
        HeaderListView {
            origin: self.origin,
            fields: header_set(self.fields, name, value),
            edits: self.edits.push(EditView::Put(name, value)),
        }
    }

    /// The list after every field named `name` is dropped, with the edit recorded.
    pub open spec fn drop(self, name: Seq<char>) -> HeaderListView {
        HeaderListView {
            origin: self.origin,
            fields: header_without(self.fields, name),
            edits: self.edits.push(EditView::Remove(name)),
        }
    }
}

impl View for HeaderList {
    type V = HeaderListView;

    closed spec fn view(&self) -> HeaderListView {
        HeaderListView { origin: self.origin@, fields: fields_view(self.fields@), edits: edits_view(self.edits@) }
    }
}

impl HeaderList {
    /// An empty list with no edits.
    pub fn new() -> (res: HeaderList)
        ensures
            res@.origin == Seq::<FieldView>::empty(),
            res@.fields == Seq::<FieldView>::empty(),
            res@.edits == Seq::<EditView>::empty(),
            res@.edits_reproduce_fields(),
    {
        let res = HeaderList { origin: Ghost(Seq::empty()), fields: Vec::new(), edits: Vec::new() };
        assert(res@.fields =~= Seq::<FieldView>::empty());
        assert(res@.edits =~= Seq::<EditView>::empty());
        res
    }

    /// A list holding `fields`, with no edits.
    pub fn from_fields(fields: Vec<(String, String)>) -> (res: HeaderList)
        ensures
            res@.origin == fields_view(fields@),
            res@.fields == fields_view(fields@),
            res@.edits == Seq::<EditView>::empty(),
            res@.edits_reproduce_fields(),
    {
        let res = HeaderList { origin: Ghost(fields_view(fields@)), fields, edits: Vec::new() };
        assert(res@.edits =~= Seq::<EditView>::empty());
        res
    }

    /// The fields, in order.
    pub fn fields(&self) -> (res: &Vec<(String, String)>)
        ensures
            fields_view(res@) == self@.fields,
    {
        &self.fields
    }

    /// The edits made since the list was built, in order.
    pub fn edits(&self) -> (res: &Vec<HeaderEdit>)
        ensures
            edits_view(res@) == self@.edits,
    {
        &self.edits
    }

    /// The first value of a field named `name`.
    pub fn get(&self, name: &String) -> (res: Option<String>)
        ensures
            match res {
                Some(v) => header_get(self@.fields, name@) == Some(v@),
                None => header_get(self@.fields, name@) is None,
            },
    {
        let ghost fs = self@.fields;
        let mut i: usize = 0;
        assert(fs.skip(0) =~= fs);
        while i < self.fields.len()
            invariant
                i <= self.fields.len(),
                fs == fields_view(self.fields@),
                header_get(fs, name@) == header_get(fs.skip(i as int), name@),
            decreases self.fields.len() - i,
        {
            assert(fs.skip(i as int)[0] == fs[i as int]);
            if self.fields[i].0 == *name {
                return Some(self.fields[i].1.clone());
            }
            assert(fs.skip(i as int).drop_first() =~= fs.skip(i + 1));
            i = i + 1;
        }
        assert(fs.skip(i as int).len() == 0);
        None
    }

    fn drop_named(&mut self, name: &String)
        ensures
            final(self)@.fields == header_without(old(self)@.fields, name@),
            final(self).edits == old(self).edits,
            final(self).origin == old(self).origin,
    {
        let ghost fs = self@.fields;
        let mut kept: Vec<(String, String)> = Vec::new();
        let mut i: usize = 0;
        while i < self.fields.len()
            invariant
                i <= self.fields.len(),
                fs == fields_view(self.fields@),
                fields_view(kept@) == header_without(fs.take(i as int), name@),
            decreases self.fields.len() - i,
        {
            assert(fs.take(i + 1).drop_last() =~= fs.take(i as int));
            if self.fields[i].0 != *name {
                let f = (self.fields[i].0.clone(), self.fields[i].1.clone());
                kept.push(f);
                assert(fields_view(kept@) =~= header_without(fs.take(i as int), name@).push(fs[i as int]));
            }
            i = i + 1;
        }
        assert(fs.take(self.fields.len() as int) =~= fs);
        self.fields = kept;
    }

    /// Replaces every field named `name` by one field `(name, value)`, and
    /// records the edit.
    pub fn insert(&mut self, name: String, value: String)
        ensures
            final(self)@ == old(self)@.put(name@, value@),
    {
        self.drop_named(&name);
        let edit = HeaderEdit::Put(name.clone(), value.clone());
        self.edits.push(edit);
        self.fields.push((name, value));
        assert(self@.fields =~= header_set(old(self)@.fields, name@, value@));
        assert(self@.edits =~= old(self)@.edits.push(EditView::Put(name@, value@)));
    }

    /// Drops every field named `name`, and records the edit.
    pub fn remove(&mut self, name: String)
        ensures
            final(self)@ == old(self)@.drop(name@),
    {
        self.drop_named(&name);
        self.edits.push(HeaderEdit::Remove(name));
        assert(self@.edits =~= old(self)@.edits.push(EditView::Remove(name@)));
    }
}

} // verus!
