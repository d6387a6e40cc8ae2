//! An ordered collection of attributes, addressed by position.

use std::collections::VecDeque;
use std::rc::Rc;
use vstd::prelude::*;
use vstd::string::*;
use crate::error::DicomError;
use crate::number::{integer_text, push_digits};
use crate::tag::{items_text, Attribute};

verus! {

broadcast use vstd::std_specs::vecdeque::group_vec_dequeue_axioms;

/// A position in a dataset, counted from zero.
pub type CursorPosition = usize;

/// Attributes in the order in which they were put.
#[derive(Debug, Clone)]
pub struct Dataset {
    objects: VecDeque<Rc<Attribute>>,
}

/// A walk over a dataset, from its first attribute to its last.
#[derive(Debug, Clone)]
pub struct DatasetIter<'a> {
    dataset: &'a Dataset,
    position: usize,
}

impl View for Dataset {
    type V = Seq<Rc<Attribute>>;

    closed spec fn view(&self) -> Seq<Rc<Attribute>> {
        self.objects@
    }
}

/// The message of the error for a position that lies beyond the end.
pub open spec fn out_of_bounds_text(position: int) -> Seq<char> {
    "Position "@ + integer_text(position) + " out of bounds"@
}

impl Dataset {
    /// An empty dataset.
    pub fn new() -> (res: Dataset)
        ensures
            res@ == Seq::<Rc<Attribute>>::empty(),
    {
        Dataset { objects: VecDeque::new() }
    }

    /// The attribute at `position`, if there is one.
    pub fn get(&self, position: CursorPosition) -> (res: Option<&Rc<Attribute>>)
        ensures
            res == if position < self@.len() {
                Some(&self@[position as int])
            } else {
                None
            },
    {
        if position < self.objects.len() {
            Some(&self.objects[position])
        } else {
            None
        }
    }

    /// The number of attributes.
    pub fn len(&self) -> (res: usize)
        ensures
            res == self@.len(),
    {
        self.objects.len()
    }

    /// Whether the dataset holds no attribute.
    pub fn is_empty(&self) -> (res: bool)
        ensures
            res == (self@.len() == 0),
    {
        self.objects.len() == 0
    }

    /// Removes every attribute.
    pub fn clear(&mut self)
        ensures
            final(self)@ == Seq::<Rc<Attribute>>::empty(),
    {
        self.objects.clear();
    }

    /// Puts an attribute after the last one.
    pub fn push_back(&mut self, dicom_object: Rc<Attribute>)
        ensures
            final(self)@ == old(self)@.push(dicom_object),
    {
        self.objects.push_back(dicom_object);
    }

    /// Puts an attribute before the first one.
    pub fn push_front(&mut self, dicom_object: Rc<Attribute>)
        ensures
            final(self)@ == seq![dicom_object] + old(self)@,
    {
        self.objects.push_front(dicom_object);
    }

    /// Puts an attribute at `position` and moves those at and after it one
    /// place on. The position just after the last attribute is accepted; one
    /// beyond it is refused, and the dataset is left as it was.
    pub fn insert(&mut self, position: CursorPosition, dicom_object: Rc<Attribute>) -> (res:
        Result<(), DicomError>)
        ensures
            if position <= old(self)@.len() {
                res is Ok && final(self)@ == old(self)@.insert(position as int, dicom_object)
            } else {
                &&& res matches Err(DicomError::InvalidLength(m))
                &&& m@ == out_of_bounds_text(position as int)
                &&& final(self)@ == old(self)@
            },
    {
        if position <= self.objects.len() {
            self.objects.insert(position, dicom_object);
            Ok(())
        } else {
            let mut message = String::from_str("Position ");
            push_digits(&mut message, position as u64);
            message.append(" out of bounds");
            Err(DicomError::InvalidLength(message))
        }
    }

    /// Takes out the attribute at `position`, if there is one, and moves
    /// those after it one place back.
    pub fn remove_at(&mut self, position: CursorPosition) -> (res: Option<Rc<Attribute>>)
        ensures
            if position < old(self)@.len() {
                res == Some(old(self)@[position as int]) && final(self)@ == old(self)@.remove(
                    position as int,
                )
            } else {
                res is None && final(self)@ == old(self)@
            },
    {
        if position < self.objects.len() {
            self.objects.remove(position)
        } else {
            None
        }
    }

    /// Puts an attribute in the place of the one at `position`, if there is
    /// one, and hands back the one that was there. No other attribute moves.
    pub fn replace_at(&mut self, position: CursorPosition, dicom_object: Rc<Attribute>) -> (res:
        Option<Rc<Attribute>>)
        ensures
            if position < old(self)@.len() {
                res == Some(old(self)@[position as int]) && final(self)@ == old(self)@.update(
                    position as int,
                    dicom_object,
                )
            } else {
                res is None && final(self)@ == old(self)@
            },
    {
        if position < self.objects.len() {
            let previous = self.objects.remove(position);
            self.objects.insert(position, dicom_object);
            previous
        } else {
            None
        }
    }

    /// Takes out the last attribute, if there is one.
    pub fn pop_back(&mut self) -> (res: Option<Rc<Attribute>>)
        ensures
            if old(self)@.len() > 0 {
                res == Some(old(self)@.last()) && final(self)@ == old(self)@.drop_last()
            } else {
                res is None && final(self)@ == old(self)@
            },
    {
        self.objects.pop_back()
    }

    /// Takes out the first attribute, if there is one.
    pub fn pop_front(&mut self) -> (res: Option<Rc<Attribute>>)
        ensures
            if old(self)@.len() > 0 {
                res == Some(old(self)@.first()) && final(self)@ == old(self)@.drop_first()
            } else {
                res is None && final(self)@ == old(self)@
            },
    {
        self.objects.pop_front()
    }

    /// A walk over this dataset that starts at its first attribute.
    pub fn iter(&self) -> (res: DatasetIter<'_>)
        ensures
            res.source() == self@,
            res.position() == 0,
    {
        DatasetIter { dataset: self, position: 0 }
    }

    /// The text of this dataset: the texts of its attributes, in order.
    pub open spec fn text(&self) -> Seq<char> {
        items_text(self@)
    }

    /// Renders the text of this dataset.
    pub fn to_string(&self) -> (res: String)
        ensures
            res@ == self.text(),
    {
        let mut out = String::new();
        let mut k: usize = 0;
        while k < self.objects.len()
            invariant
                k <= self@.len(),
                self@ == self.objects@,
                out@ == items_text(self@.take(k as int)),
            decreases self@.len() - k,
        {
            self.objects[k].push_text(&mut out);
            proof {
                let next = self@.take(k + 1);
                assert(next.drop_last() =~= self@.take(k as int));
            }
            k = k + 1;
        }
        assert(self@.take(k as int) =~= self@);
        out
    }
}

impl<'a> DatasetIter<'a> {
    /// The attributes of the dataset that is walked.
    pub closed spec fn source(&self) -> Seq<Rc<Attribute>> {
        self.dataset@
    }

    /// The position of the attribute that comes next.
    pub closed spec fn position(&self) -> int {
        self.position as int
    }

    /// The next position with its attribute, until the walk is past the last one.
    pub fn next(&mut self) -> (res: Option<(CursorPosition, &'a Rc<Attribute>)>)
        ensures
            final(self).source() == old(self).source(),
            if old(self).position() < old(self).source().len() {
                &&& res == Some(
                    (
                        old(self).position() as usize,
                        &old(self).source()[old(self).position()],
                    ),
                )
                &&& final(self).position() == old(self).position() + 1
            } else {
                res is None && final(self).position() == old(self).position()
            },
    {
        let dataset: &'a Dataset = self.dataset;
        let at = self.position;
        if at < dataset.len() {
            self.position = at + 1;
            match dataset.get(at) {
                Some(a) => Some((at, a)),
                None => None,
            }
        } else {
            None
        }
    }
}

/// After an attribute is put at a position it is found there, and the
/// dataset is longer by one.
pub proof fn lemma_insert_then_get(items: Seq<Rc<Attribute>>, position: int, a: Rc<Attribute>)
    requires
        0 <= position <= items.len(),
    ensures
        items.insert(position, a)[position] == a,
        items.insert(position, a).len() == items.len() + 1,
{
}

/// Putting an attribute at the position just after the last one is the same
/// as putting it at the back.
pub proof fn lemma_insert_at_end_is_push(items: Seq<Rc<Attribute>>, a: Rc<Attribute>)
    ensures
        items.insert(items.len() as int, a) == items.push(a),
{
}

} // verus!
