//! The extractor: it walks a value depth first, gives every element an
//! identifier, and states the facts about it to a backend.
//!
//! The walk is driven from outside, one call for each step of the value:
//! a call for a scalar, a call that opens a container, one call after each
//! child of a container, and a call that closes it. A wrapper around a
//! single child (a newtype, or a present optional value) is stated after its
//! child.

use vstd::prelude::*;
use crate::elem::{ElemId, ElemType};
use crate::error::{outcome, DatalogExtractionError, ErrorModel};
use crate::interface::{DatalogExtractorBackend, Fact};

verus! {

/// The state of an extractor over a backend with content `M`.
#[verifier::ext_equal]
pub struct ExtractorModel<M> {
    /// The identifier that the next element gets.
    pub next_id: usize,
    /// The file whose root the next element becomes, if one is pending.
    pub cur_file: Option<Seq<char>>,
    /// The elements that have their facts but not yet a parent, oldest
    /// first.
    pub elem_stack: Seq<ElemId>,
    /// The open containers, outermost first, each with the position of its
    /// next child.
    pub parent_stack: Seq<(ElemId, usize)>,
    /// The content of the backend.
    pub backend: M,
}

/// The number of children that the open containers have been given so far.
pub open spec fn children_linked(frames: Seq<(ElemId, usize)>) -> nat
    decreases frames.len(),
{
    if frames.len() == 0 {
        0
    } else {
        children_linked(frames.drop_last()) + frames.last().1 as nat
    }
}

impl<M> ExtractorModel<M> {
    /// The state of a new extractor over a backend with content `backend`.
    pub open spec fn initial(backend: M) -> Self {
        ExtractorModel {
            next_id: 1,
            cur_file: None,
            elem_stack: Seq::empty(),
            parent_stack: Seq::empty(),
            backend,
        }
    }

    /// The invariant of the two stacks. Identifiers are handed out in
    /// increasing order, so both stacks ascend and hold only identifiers
    /// that were handed out; an open container waits on the element stack
    /// for its own parent; and no more children were linked than elements
    /// were made.
    pub open spec fn wf(self) -> bool {
        &&& 1 <= self.next_id
        &&& forall|i: int| 0 <= i < self.elem_stack.len() ==> (#[trigger] self.elem_stack[i]).0
            < self.next_id
        &&& forall|i: int, j: int|
            0 <= i < j < self.elem_stack.len() ==> (#[trigger] self.elem_stack[i]).0 < (
            #[trigger] self.elem_stack[j]).0
        &&& forall|i: int, j: int|
            0 <= i < j < self.parent_stack.len() ==> (#[trigger] self.parent_stack[i]).0.0 < (
            #[trigger] self.parent_stack[j]).0.0
        &&& forall|k: int|
            0 <= k < self.parent_stack.len() ==> self.elem_stack.contains(
                (#[trigger] self.parent_stack[k]).0,
            )
        &&& children_linked(self.parent_stack) + self.elem_stack.len() < self.next_id
    }

    /// Whether another identifier can be handed out.
    pub open spec fn can_allocate(self) -> bool {
        self.next_id < usize::MAX
    }

    /// Whether a container is open.
    pub open spec fn in_container(self) -> bool {
        self.parent_stack.len() > 0
    }

    /// Whether an element waits for a parent: the element stack is not
    /// empty, and its top is not the innermost open container itself.
    pub open spec fn has_child(self) -> bool {
        &&& self.elem_stack.len() > 0
        &&& self.in_container() ==> self.elem_stack.last() != self.parent_stack.last().0
    }

    /// Whether a key and a value wait for the innermost open container: the
    /// two elements on top of the element stack, neither of which is the
    /// container itself.
    pub open spec fn has_entry(self) -> bool {
        &&& self.in_container()
        &&& self.elem_stack.len() >= 2
        &&& self.elem_stack[self.elem_stack.len() - 2] != self.parent_stack.last().0
        &&& self.elem_stack.last() != self.parent_stack.last().0
    }

    /// The state without the top of the element stack.
    pub open spec fn without_child(self) -> Self {
        ExtractorModel { elem_stack: self.elem_stack.drop_last(), ..self }
    }

    /// The state in which the innermost open container has one child more.
    pub open spec fn advanced(self) -> Self {
        let (parent, pos) = self.parent_stack.last();
        ExtractorModel {
            parent_stack: self.parent_stack.update(
                self.parent_stack.len() - 1,
                (parent, (pos + 1) as usize),
            ),
            ..self
        }
    }
}

/// A new open container has no children yet.
pub proof fn lemma_children_linked_push(frames: Seq<(ElemId, usize)>, id: ElemId)
    ensures
        children_linked(frames.push((id, 0))) == children_linked(frames),
{
    assert(frames.push((id, 0)).drop_last() =~= frames);
}

/// One child more for the innermost open container is one child more in all.
pub proof fn lemma_children_linked_advance(frames: Seq<(ElemId, usize)>, pos: usize)
    requires
        frames.len() > 0,
    ensures
        children_linked(frames.update(frames.len() - 1, (frames.last().0, pos)))
            == children_linked(frames) - frames.last().1 + pos,
        children_linked(frames.drop_last()) <= children_linked(frames),
        frames.last().1 <= children_linked(frames),
{
    assert(frames.update(frames.len() - 1, (frames.last().0, pos)).drop_last()
        =~= frames.drop_last());
}

/// In a state that meets the invariant, the element that waits for a parent
/// was made after the innermost open container: the identifier of a
/// container is less than that of each of its children.
pub proof fn lemma_container_precedes_child<M>(s: ExtractorModel<M>)
    requires
        s.wf(),
        s.in_container(),
        s.has_child(),
    ensures
        s.parent_stack.last().0.0 < s.elem_stack.last().0,
        s.without_child().wf(),
{
    let parent = s.parent_stack.last().0;
    let top = s.elem_stack.len() - 1;
    assert(s.elem_stack.contains(s.parent_stack[s.parent_stack.len() - 1].0));
    let at = choose|i: int| 0 <= i < s.elem_stack.len() && s.elem_stack[i] == parent;
    assert(at < top);
    let rest = s.without_child();
    assert forall|k: int| 0 <= k < rest.parent_stack.len() implies rest.elem_stack.contains(
        (#[trigger] rest.parent_stack[k]).0,
    ) by {
        let frame = s.parent_stack[k].0;
        assert(s.elem_stack.contains(frame));
        let i = choose|i: int| 0 <= i < s.elem_stack.len() && s.elem_stack[i] == frame;
        if k < s.parent_stack.len() - 1 {
            assert(s.parent_stack[k].0.0 < s.parent_stack[s.parent_stack.len() - 1].0.0);
        }
        assert(i <= at);
        assert(rest.elem_stack[i] == frame);
    }
}

/// The element that waits for a parent was made before the next element is:
/// a wrapper, which is made after its content, gets an identifier that is
/// greater than that of its child. Taking the child off the element stack
/// keeps the invariant.
pub proof fn lemma_wrapper_follows_child<M>(s: ExtractorModel<M>)
    requires
        s.wf(),
        s.has_child(),
    ensures
        s.without_child().wf(),
        s.elem_stack.last().0 < s.next_id,
{
    if s.in_container() {
        lemma_container_precedes_child(s);
    }
}

/// A key and a value that wait for the innermost open container were both
/// made after it.
pub proof fn lemma_container_precedes_entry<M>(s: ExtractorModel<M>)
    requires
        s.wf(),
        s.has_entry(),
    ensures
        s.has_child(),
        s.without_child().has_child(),
        s.without_child().without_child().wf(),
        s.parent_stack.last().0.0 < s.elem_stack[s.elem_stack.len() - 2].0,
        s.elem_stack[s.elem_stack.len() - 2].0 < s.elem_stack.last().0,
{
    lemma_container_precedes_child(s);
    let rest = s.without_child();
    assert(rest.elem_stack.last() == s.elem_stack[s.elem_stack.len() - 2]);
    lemma_container_precedes_child(rest);
}

/// Implementation of the walk over a value's elements. It holds no facts
/// itself: it states them to its backend.
pub struct DatalogExtractor<B: DatalogExtractorBackend> {
    cur_file: Option<String>,
    cur_elem_id: ElemId,
    elem_stack: Vec<ElemId>,
    parent_stack: Vec<(ElemId, usize)>,
    backend: B,
}

impl<B: DatalogExtractorBackend> View for DatalogExtractor<B> {
    type V = ExtractorModel<B::Model>;

    closed spec fn view(&self) -> ExtractorModel<B::Model> {
        ExtractorModel {
            next_id: self.cur_elem_id.0,
            cur_file: match self.cur_file {
                Some(file) => Some(file@),
                None => None,
            },
            elem_stack: self.elem_stack@,
            parent_stack: self.parent_stack@,
            backend: self.backend.model(),
        }
    }
}

impl<B: DatalogExtractorBackend> DatalogExtractor<B> {
    /// The state after `fact` was stated to the backend, and what the
    /// backend answered.
    pub open spec fn stated(s: ExtractorModel<B::Model>, fact: Fact) -> (
        ExtractorModel<B::Model>,
        Result<(), ErrorModel>,
    ) {
        let (backend, r) = B::apply(s.backend, fact);
        (ExtractorModel { backend, ..s }, r)
    }

    /// The next step of a run of steps: nothing more happens after an
    /// error, else `fact` is stated.
    pub open spec fn and_then(
        step: (ExtractorModel<B::Model>, Result<(), ErrorModel>),
        fact: Fact,
    ) -> (ExtractorModel<B::Model>, Result<(), ErrorModel>) {
        if step.1 is Ok {
            Self::stated(step.0, fact)
        } else {
            step
        }
    }

    /// A new element of the shape `elem_type`. It gets the next identifier,
    /// and its shape is stated. Where the backend takes that, the element
    /// goes on the element stack and the identifier is used up; a pending
    /// file then gets the element as its root, and is pending no more once
    /// the backend has taken that too.
    pub open spec fn fresh(s: ExtractorModel<B::Model>, elem_type: ElemType) -> (
        ExtractorModel<B::Model>,
        Result<ElemId, ErrorModel>,
    ) {
        let id = ElemId(s.next_id);
        let (typed, r) = Self::stated(s, Fact::Elem { elem: id, elem_type });
        match r {
            Err(e) => (typed, Err(e)),
            Ok(_) => {
                let made = ExtractorModel {
                    next_id: (s.next_id + 1) as usize,
                    elem_stack: s.elem_stack.push(id),
                    ..typed
                };
                match s.cur_file {
                    None => (made, Ok(id)),
                    Some(file) => {
                        let (rooted, r) = Self::stated(made, Fact::RootElem { file, elem: id });
                        match r {
                            Err(e) => (rooted, Err(e)),
                            Ok(_) => (ExtractorModel { cur_file: None, ..rooted }, Ok(id)),
                        }
                    },
                }
            },
        }
    }

    /// Identifiers are handed out in strictly increasing order and never
    /// twice: a new element gets the next identifier, which is greater than
    /// that of every element on the two stacks, and the one after it is the
    /// next from then on. No step ever lowers the next identifier.
    pub proof fn lemma_identifiers_increase(s: ExtractorModel<B::Model>, elem_type: ElemType)
        requires
            s.wf(),
            s.can_allocate(),
        ensures
            ({
                let (made, r) = Self::fresh(s, elem_type);
                &&& s.next_id <= made.next_id <= s.next_id + 1
                &&& made.wf()
                &&& r matches Ok(id) ==> {
                    &&& id == ElemId(s.next_id)
                    &&& made.next_id == s.next_id + 1
                    &&& made.elem_stack == s.elem_stack.push(id)
                    &&& made.parent_stack == s.parent_stack
                    &&& forall|i: int|
                        0 <= i < s.elem_stack.len() ==> (#[trigger] s.elem_stack[i]).0 < id.0
                    &&& forall|i: int|
                        0 <= i < s.parent_stack.len() ==> (#[trigger] s.parent_stack[i]).0.0
                            < id.0
                }
            }),
    {
        let (made, r) = Self::fresh(s, elem_type);
        assert forall|i: int| 0 <= i < s.parent_stack.len() implies (
        #[trigger] s.parent_stack[i]).0.0 < s.next_id by {
            assert(s.elem_stack.contains(s.parent_stack[i].0));
        }
        if made.next_id != s.next_id {
            assert(made.elem_stack == s.elem_stack.push(ElemId(s.next_id)));
            assert(made.parent_stack == s.parent_stack);
            assert forall|k: int| 0 <= k < made.parent_stack.len() implies made.elem_stack.contains(
                (#[trigger] made.parent_stack[k]).0,
            ) by {
                let frame = s.parent_stack[k].0;
                assert(s.elem_stack.contains(frame));
                let i = choose|i: int| 0 <= i < s.elem_stack.len() && s.elem_stack[i] == frame;
                assert(made.elem_stack[i] == frame);
            }
        }
    }

    /// A new element without children.
    pub open spec fn made(s: ExtractorModel<B::Model>, elem_type: ElemType) -> (
        ExtractorModel<B::Model>,
        Result<(), ErrorModel>,
    ) {
        let (made, r) = Self::fresh(s, elem_type);
        match r {
            Err(e) => (made, Err(e)),
            Ok(_) => (made, Ok(())),
        }
    }

    /// A new container: a new element that is from now on the innermost open
    /// container, with its first child still to come.
    pub open spec fn opened(s: ExtractorModel<B::Model>, elem_type: ElemType) -> (
        ExtractorModel<B::Model>,
        Result<(), ErrorModel>,
    ) {
        let (made, r) = Self::fresh(s, elem_type);
        match r {
            Err(e) => (made, Err(e)),
            Ok(id) => (
                ExtractorModel { parent_stack: made.parent_stack.push((id, 0)), ..made },
                Ok(()),
            ),
        }
    }

    /// A wrapper around the element that waits for a parent: the child
    /// leaves the element stack, the wrapper is made after it, is named by
    /// `name` and gets the child as its only entry, at position 0.
    pub open spec fn wrapped(s: ExtractorModel<B::Model>, elem_type: ElemType, name: Fact) -> (
        ExtractorModel<B::Model>,
        Result<(), ErrorModel>,
    ) {
        let child = s.elem_stack.last();
        let rest = s.without_child();
        Self::and_then(
            Self::and_then(Self::made(rest, elem_type), name),
            Fact::TupleEntry { elem: ElemId(rest.next_id), pos: 0, value: child },
        )
    }

    /// The fact that links a child to a container by position: an entry of
    /// a sequence, or else of a tuple.
    pub open spec fn position_fact(elem_type: ElemType, parent: ElemId, pos: usize, child: ElemId)
        -> Fact {
        if elem_type is Sequence {
            Fact::SeqEntry { elem: parent, pos, value: child }
        } else {
            Fact::TupleEntry { elem: parent, pos, value: child }
        }
    }

    /// The element that waits for a parent becomes the next child of the
    /// innermost open container, which is of the shape `elem_type`. The
    /// container counts one child more once the backend has taken the entry.
    pub open spec fn element(s: ExtractorModel<B::Model>, elem_type: ElemType) -> (
        ExtractorModel<B::Model>,
        Result<(), ErrorModel>,
    ) {
        let (parent, pos) = s.parent_stack.last();
        let (linked, r) = Self::stated(
            s.without_child(),
            Self::position_fact(elem_type, parent, pos, s.elem_stack.last()),
        );
        if r is Ok {
            (linked.advanced(), r)
        } else {
            (linked, r)
        }
    }

    /// The element that waits for a parent becomes the field `key` of the
    /// innermost open container.
    pub open spec fn field(s: ExtractorModel<B::Model>, key: Seq<char>) -> (
        ExtractorModel<B::Model>,
        Result<(), ErrorModel>,
    ) {
        Self::stated(
            s.without_child(),
            Fact::StructEntry {
                elem: s.parent_stack.last().0,
                key,
                value: s.elem_stack.last(),
            },
        )
    }

    /// The two elements that wait for a parent, a key below its value,
    /// become an entry of the innermost open container, a map.
    pub open spec fn entry(s: ExtractorModel<B::Model>) -> (
        ExtractorModel<B::Model>,
        Result<(), ErrorModel>,
    ) {
        let (linked, r) = Self::stated(
            s.without_child().without_child(),
            Fact::MapEntry {
                elem: s.parent_stack.last().0,
                key: s.elem_stack[s.elem_stack.len() - 2],
                value: s.elem_stack.last(),
            },
        );
        if r is Ok {
            (linked.advanced(), r)
        } else {
            (linked, r)
        }
    }

    /// The innermost open container is closed.
    pub open spec fn closed(s: ExtractorModel<B::Model>) -> ExtractorModel<B::Model> {
        ExtractorModel { parent_stack: s.parent_stack.drop_last(), ..s }
    }

    /// Whether the backend meets its invariant.
    pub closed spec fn backend_inv(&self) -> bool {
        self.backend.inv()
    }

    /// The invariant of the extractor: that of its backend, and that of its
    /// stacks.
    pub open spec fn wf(&self) -> bool {
        &&& self.backend_inv()
        &&& self@.wf()
    }

    /// An extractor that has made no element yet and states its facts to
    /// `backend`.
    pub fn new(backend: B) -> (extractor: Self)
        requires
            backend.inv(),
        ensures
            extractor.wf(),
            extractor@ == ExtractorModel::initial(backend.model()),
    {
        let extractor = DatalogExtractor {
            backend,
            cur_elem_id: ElemId(1),
            cur_file: None,
            elem_stack: Vec::new(),
            parent_stack: Vec::new(),
        };
        assert(extractor@ =~= ExtractorModel::initial(backend.model()));
        extractor
    }

    /// Makes the next new element the root element of `file`.
    pub fn set_file(&mut self, file: &str) -> (r: Result<(), DatalogExtractionError>)
        ensures
            r is Ok,
            final(self)@ == (ExtractorModel { cur_file: Some(file@), ..old(self)@ }),
            old(self).wf() ==> final(self).wf(),
    {
        self.cur_file = Some(file.to_owned());
        assert(self@ =~= (ExtractorModel { cur_file: Some(file@), ..old(self)@ }));
        Ok(())
    }

    /// The backend, with the facts of all the steps so far.
    pub fn get_backend(self) -> (backend: B)
        ensures
            backend.model() == self@.backend,
            self.wf() ==> backend.inv(),
    {
        self.backend
    }

    /// Whether another identifier can be handed out.
    pub fn can_allocate(&self) -> (b: bool)
        ensures
            b == self@.can_allocate(),
    {
        self.cur_elem_id.0 < usize::MAX
    }

    /// Whether a container is open.
    pub fn in_container(&self) -> (b: bool)
        ensures
            b == self@.in_container(),
    {
        self.parent_stack.len() > 0
    }

    /// Whether an element waits for a parent.
    pub fn has_child(&self) -> (b: bool)
        ensures
            b == self@.has_child(),
    {
        let waiting = self.elem_stack.len();
        let open = self.parent_stack.len();
        waiting > 0 && (open == 0 || self.elem_stack[waiting - 1].0 != self.parent_stack[open
            - 1].0.0)
    }

    /// Whether a key and a value wait for the innermost open container.
    pub fn has_entry(&self) -> (b: bool)
        ensures
            b == self@.has_entry(),
    {
        let waiting = self.elem_stack.len();
        let open = self.parent_stack.len();
        open > 0 && waiting >= 2 && self.elem_stack[waiting - 2].0 != self.parent_stack[open
            - 1].0.0 && self.elem_stack[waiting - 1].0 != self.parent_stack[open - 1].0.0
    }

    /// Makes a new element of the shape `elem_type` and gives its
    /// identifier.
    fn get_fresh_elem_id(&mut self, elem_type: ElemType) -> (r: Result<
        ElemId,
        DatalogExtractionError,
    >)
        requires
            old(self).wf(),
            old(self)@.can_allocate(),
        ensures
            final(self).wf(),
            (final(self)@, outcome(r)) == Self::fresh(old(self)@, elem_type),
    {
        let id = self.cur_elem_id;
        match self.backend.add_elem(id, elem_type) {
            Err(e) => {
                assert(self@ =~= Self::fresh(old(self)@, elem_type).0);
                return Err(e);
            },
            Ok(_) => {},
        }
        self.elem_stack.push(id);
        self.cur_elem_id = ElemId(id.0 + 1);
        proof {
            assert forall|k: int| 0 <= k < self@.parent_stack.len() implies self@.elem_stack.contains(
                (#[trigger] self@.parent_stack[k]).0,
            ) by {
                let frame = old(self)@.parent_stack[k].0;
                assert(old(self)@.elem_stack.contains(frame));
                let i = choose|i: int|
                    0 <= i < old(self)@.elem_stack.len() && old(self)@.elem_stack[i] == frame;
                assert(self@.elem_stack[i] == frame);
            }
        }
        let rooted = match &self.cur_file {
            None => {
                assert(self@ =~= Self::fresh(old(self)@, elem_type).0);
                return Ok(id);
            },
            Some(file) => self.backend.add_root_elem(file.as_str(), id),
        };
        match rooted {
            Err(e) => {
                assert(self@ =~= Self::fresh(old(self)@, elem_type).0);
                Err(e)
            },
            Ok(_) => {
                self.cur_file = None;
                assert(self@ =~= Self::fresh(old(self)@, elem_type).0);
                Ok(id)
            },
        }
    }
    /// Extracts a boolean: a new element, then its value.
    pub fn serialize_bool(&mut self, value: bool) -> (r: Result<(), DatalogExtractionError>)
        requires
            old(self).wf(),
            old(self)@.can_allocate(),
        ensures
            final(self).wf(),
            (final(self)@, outcome(r)) == Self::and_then(
                Self::made(old(self)@, ElemType::Bool),
                Fact::Bool { elem: ElemId(old(self)@.next_id), value },
            ),
    {
        match self.get_fresh_elem_id(ElemType::Bool) {
            Err(e) => Err(e),
            Ok(id) => {
                let r = self.backend.add_bool(id, value);
                assert(self@ =~= Self::and_then(
                    Self::made(old(self)@, ElemType::Bool),
                    Fact::Bool { elem: ElemId(old(self)@.next_id), value },
                ).0);
                r
            },
        }
    }

    /// Extracts an i8: a new element, then its value as a signed number.
    pub fn serialize_i8(&mut self, value: i8) -> (r: Result<(), DatalogExtractionError>)
        requires
            old(self).wf(),
            old(self)@.can_allocate(),
        ensures
            final(self).wf(),
            (final(self)@, outcome(r)) == Self::and_then(
                Self::made(old(self)@, ElemType::I8),
                Fact::I64 { elem: ElemId(old(self)@.next_id), value: value as i64 },
            ),
    {
        match self.get_fresh_elem_id(ElemType::I8) {
            Err(e) => Err(e),
            Ok(id) => {
                let r = self.backend.add_i8(id, value);
                assert(self@ =~= Self::and_then(
                    Self::made(old(self)@, ElemType::I8),
                    Fact::I64 { elem: ElemId(old(self)@.next_id), value: value as i64 },
                ).0);
                r
            },
        }
    }

    /// Extracts an i16: a new element, then its value as a signed number.
    pub fn serialize_i16(&mut self, value: i16) -> (r: Result<(), DatalogExtractionError>)
        requires
            old(self).wf(),
            old(self)@.can_allocate(),
        ensures
            final(self).wf(),
            (final(self)@, outcome(r)) == Self::and_then(
                Self::made(old(self)@, ElemType::I16),
                Fact::I64 { elem: ElemId(old(self)@.next_id), value: value as i64 },
            ),
    {
        match self.get_fresh_elem_id(ElemType::I16) {
            Err(e) => Err(e),
            Ok(id) => {
                let r = self.backend.add_i16(id, value);
                assert(self@ =~= Self::and_then(
                    Self::made(old(self)@, ElemType::I16),
                    Fact::I64 { elem: ElemId(old(self)@.next_id), value: value as i64 },
                ).0);
                r
            },
        }
    }

    /// Extracts an i32: a new element, then its value as a signed number.
    pub fn serialize_i32(&mut self, value: i32) -> (r: Result<(), DatalogExtractionError>)
        requires
            old(self).wf(),
            old(self)@.can_allocate(),
        ensures
            final(self).wf(),
            (final(self)@, outcome(r)) == Self::and_then(
                Self::made(old(self)@, ElemType::I32),
                Fact::I64 { elem: ElemId(old(self)@.next_id), value: value as i64 },
            ),
    {
        match self.get_fresh_elem_id(ElemType::I32) {
            Err(e) => Err(e),
            Ok(id) => {
                let r = self.backend.add_i32(id, value);
                assert(self@ =~= Self::and_then(
                    Self::made(old(self)@, ElemType::I32),
                    Fact::I64 { elem: ElemId(old(self)@.next_id), value: value as i64 },
                ).0);
                r
            },
        }
    }

    /// Extracts an i64: a new element, then its value as a signed number.
    pub fn serialize_i64(&mut self, value: i64) -> (r: Result<(), DatalogExtractionError>)
        requires
            old(self).wf(),
            old(self)@.can_allocate(),
        ensures
            final(self).wf(),
            (final(self)@, outcome(r)) == Self::and_then(
                Self::made(old(self)@, ElemType::I64),
                Fact::I64 { elem: ElemId(old(self)@.next_id), value },
            ),
    {
        match self.get_fresh_elem_id(ElemType::I64) {
            Err(e) => Err(e),
            Ok(id) => {
                let r = self.backend.add_i64(id, value);
                assert(self@ =~= Self::and_then(
                    Self::made(old(self)@, ElemType::I64),
                    Fact::I64 { elem: ElemId(old(self)@.next_id), value },
                ).0);
                r
            },
        }
    }

    /// Extracts a u8: a new element, then its value as an unsigned number.
    pub fn serialize_u8(&mut self, value: u8) -> (r: Result<(), DatalogExtractionError>)
        requires
            old(self).wf(),
            old(self)@.can_allocate(),
        ensures
            final(self).wf(),
            (final(self)@, outcome(r)) == Self::and_then(
                Self::made(old(self)@, ElemType::U8),
                Fact::U64 { elem: ElemId(old(self)@.next_id), value: value as u64 },
            ),
    {
        match self.get_fresh_elem_id(ElemType::U8) {
            Err(e) => Err(e),
            Ok(id) => {
                let r = self.backend.add_u8(id, value);
                assert(self@ =~= Self::and_then(
                    Self::made(old(self)@, ElemType::U8),
                    Fact::U64 { elem: ElemId(old(self)@.next_id), value: value as u64 },
                ).0);
                r
            },
        }
    }

    /// Extracts a u16: a new element, then its value as an unsigned number.
    pub fn serialize_u16(&mut self, value: u16) -> (r: Result<(), DatalogExtractionError>)
        requires
            old(self).wf(),
            old(self)@.can_allocate(),
        ensures
            final(self).wf(),
            (final(self)@, outcome(r)) == Self::and_then(
                Self::made(old(self)@, ElemType::U16),
                Fact::U64 { elem: ElemId(old(self)@.next_id), value: value as u64 },
            ),
    {
        match self.get_fresh_elem_id(ElemType::U16) {
            Err(e) => Err(e),
            Ok(id) => {
                let r = self.backend.add_u16(id, value);
                assert(self@ =~= Self::and_then(
                    Self::made(old(self)@, ElemType::U16),
                    Fact::U64 { elem: ElemId(old(self)@.next_id), value: value as u64 },
                ).0);
                r
            },
        }
    }

    /// Extracts a u32: a new element, then its value as an unsigned number.
    pub fn serialize_u32(&mut self, value: u32) -> (r: Result<(), DatalogExtractionError>)
        requires
            old(self).wf(),
            old(self)@.can_allocate(),
        ensures
            final(self).wf(),
            (final(self)@, outcome(r)) == Self::and_then(
                Self::made(old(self)@, ElemType::U32),
                Fact::U64 { elem: ElemId(old(self)@.next_id), value: value as u64 },
            ),
    {
        match self.get_fresh_elem_id(ElemType::U32) {
            Err(e) => Err(e),
            Ok(id) => {
                let r = self.backend.add_u32(id, value);
                assert(self@ =~= Self::and_then(
                    Self::made(old(self)@, ElemType::U32),
                    Fact::U64 { elem: ElemId(old(self)@.next_id), value: value as u64 },
                ).0);
                r
            },
        }
    }

    /// Extracts a u64: a new element, then its value as an unsigned number.
    pub fn serialize_u64(&mut self, value: u64) -> (r: Result<(), DatalogExtractionError>)
        requires
            old(self).wf(),
            old(self)@.can_allocate(),
        ensures
            final(self).wf(),
            (final(self)@, outcome(r)) == Self::and_then(
                Self::made(old(self)@, ElemType::U64),
                Fact::U64 { elem: ElemId(old(self)@.next_id), value },
            ),
    {
        match self.get_fresh_elem_id(ElemType::U64) {
            Err(e) => Err(e),
            Ok(id) => {
                let r = self.backend.add_u64(id, value);
                assert(self@ =~= Self::and_then(
                    Self::made(old(self)@, ElemType::U64),
                    Fact::U64 { elem: ElemId(old(self)@.next_id), value },
                ).0);
                r
            },
        }
    }

    /// Extracts a character: a new element, then the string of this one
    /// character.
    pub fn serialize_char(&mut self, value: char) -> (r: Result<(), DatalogExtractionError>)
        requires
            old(self).wf(),
            old(self)@.can_allocate(),
        ensures
            final(self).wf(),
            (final(self)@, outcome(r)) == Self::and_then(
                Self::made(old(self)@, ElemType::Char),
                Fact::Str { elem: ElemId(old(self)@.next_id), value: seq![value] },
            ),
    {
        match self.get_fresh_elem_id(ElemType::Char) {
            Err(e) => Err(e),
            Ok(id) => {
                let r = self.backend.add_char(id, value);
                assert(self@ =~= Self::and_then(
                    Self::made(old(self)@, ElemType::Char),
                    Fact::Str { elem: ElemId(old(self)@.next_id), value: seq![value] },
                ).0);
                r
            },
        }
    }

    /// Extracts a string: a new element, then its value.
    pub fn serialize_str(&mut self, value: &str) -> (r: Result<(), DatalogExtractionError>)
        requires
            old(self).wf(),
            old(self)@.can_allocate(),
        ensures
            final(self).wf(),
            (final(self)@, outcome(r)) == Self::and_then(
                Self::made(old(self)@, ElemType::Str),
                Fact::Str { elem: ElemId(old(self)@.next_id), value: value@ },
            ),
    {
        match self.get_fresh_elem_id(ElemType::Str) {
            Err(e) => Err(e),
            Ok(id) => {
                let r = self.backend.add_str(id, value);
                assert(self@ =~= Self::and_then(
                    Self::made(old(self)@, ElemType::Str),
                    Fact::Str { elem: ElemId(old(self)@.next_id), value: value@ },
                ).0);
                r
            },
        }
    }

    /// Declines a 32-bit floating point number: facts cannot represent it, and
    /// nothing is stated about it.
    pub fn serialize_f32(&mut self) -> (r: Result<(), DatalogExtractionError>)
        requires
            old(self).wf(),
            old(self)@.can_allocate(),
        ensures
            final(self).wf(),
            final(self)@ == old(self)@,
            outcome(r) == Err::<(), ErrorModel>(
                ErrorModel::UnextractableData(ElemType::F32.rejected_name()),
            ),
    {
        proof {
            B::lemma_rejects_unextractable(
                self@.backend,
                ElemId(self@.next_id),
                ElemType::F32,
            );
        }
        match self.get_fresh_elem_id(ElemType::F32) {
            Err(e) => Err(e),
            Ok(id) => Err(DatalogExtractionError::unextractable("f32")),
        }
    }

    /// Declines a 64-bit floating point number: facts cannot represent it, and
    /// nothing is stated about it.
    pub fn serialize_f64(&mut self) -> (r: Result<(), DatalogExtractionError>)
        requires
            old(self).wf(),
            old(self)@.can_allocate(),
        ensures
            final(self).wf(),
            final(self)@ == old(self)@,
            outcome(r) == Err::<(), ErrorModel>(
                ErrorModel::UnextractableData(ElemType::F64.rejected_name()),
            ),
    {
        proof {
            B::lemma_rejects_unextractable(
                self@.backend,
                ElemId(self@.next_id),
                ElemType::F64,
            );
        }
        match self.get_fresh_elem_id(ElemType::F64) {
            Err(e) => Err(e),
            Ok(id) => Err(DatalogExtractionError::unextractable("f64")),
        }
    }

    /// Declines a byte array: facts cannot represent it, and nothing is stated
    /// about it.
    pub fn serialize_bytes(&mut self, value: &[u8]) -> (r: Result<(), DatalogExtractionError>)
        requires
            old(self).wf(),
            old(self)@.can_allocate(),
        ensures
            final(self).wf(),
            final(self)@ == old(self)@,
            outcome(r) == Err::<(), ErrorModel>(
                ErrorModel::UnextractableData(ElemType::Bytes.rejected_name()),
            ),
    {
        proof {
            B::lemma_rejects_unextractable(
                self@.backend,
                ElemId(self@.next_id),
                ElemType::Bytes,
            );
        }
        match self.get_fresh_elem_id(ElemType::Bytes) {
            Err(e) => Err(e),
            Ok(id) => self.backend.add_bytes(id, value),
        }
    }

    /// Extracts an absent optional value, as the unit variant `None` of the
    /// type `Option`.
    pub fn serialize_none(&mut self) -> (r: Result<(), DatalogExtractionError>)
        requires
            old(self).wf(),
            old(self)@.can_allocate(),
        ensures
            final(self).wf(),
            (final(self)@, outcome(r)) == Self::and_then(
                Self::made(old(self)@, ElemType::UnitVariant),
                Fact::VariantType {
                    elem: ElemId(old(self)@.next_id),
                    enum_name: "Option"@,
                    variant_name: "None"@,
                },
            ),
    {
        self.serialize_unit_variant("Option", "None")
    }

    /// Extracts a present optional value whose content waits for a parent,
    /// as the newtype variant `Some` of the type `Option`.
    pub fn serialize_some(&mut self) -> (r: Result<(), DatalogExtractionError>)
        requires
            old(self).wf(),
            old(self)@.can_allocate(),
            old(self)@.has_child(),
        ensures
            final(self).wf(),
            (final(self)@, outcome(r)) == Self::wrapped(
                old(self)@,
                ElemType::NewtypeVariant,
                Fact::VariantType {
                    elem: ElemId(old(self)@.next_id),
                    enum_name: "Option"@,
                    variant_name: "Some"@,
                },
            ),
    {
        self.serialize_newtype_variant("Option", "Some")
    }

    /// Extracts a unit value: a new element and nothing more.
    pub fn serialize_unit(&mut self) -> (r: Result<(), DatalogExtractionError>)
        requires
            old(self).wf(),
            old(self)@.can_allocate(),
        ensures
            final(self).wf(),
            (final(self)@, outcome(r)) == Self::made(old(self)@, ElemType::Unit),
    {
        match self.get_fresh_elem_id(ElemType::Unit) {
            Err(e) => Err(e),
            Ok(_) => Ok(()),
        }
    }

    /// Extracts a unit struct: a new element, then its type name.
    pub fn serialize_unit_struct(&mut self, name: &str) -> (r: Result<(), DatalogExtractionError>)
        requires
            old(self).wf(),
            old(self)@.can_allocate(),
        ensures
            final(self).wf(),
            (final(self)@, outcome(r)) == Self::and_then(
                Self::made(old(self)@, ElemType::UnitStruct),
                Fact::StructType { elem: ElemId(old(self)@.next_id), struct_name: name@ },
            ),
    {
        match self.get_fresh_elem_id(ElemType::UnitStruct) {
            Err(e) => Err(e),
            Ok(id) => {
                let r = self.backend.add_struct_type(id, name);
                assert(self@ =~= Self::and_then(
                    Self::made(old(self)@, ElemType::UnitStruct),
                    Fact::StructType { elem: ElemId(old(self)@.next_id), struct_name: name@ },
                ).0);
                r
            },
        }
    }

    /// Extracts a unit variant: a new element, then its type and variant
    /// names.
    pub fn serialize_unit_variant(&mut self, name: &str, variant: &str) -> (r: Result<
        (),
        DatalogExtractionError,
    >)
        requires
            old(self).wf(),
            old(self)@.can_allocate(),
        ensures
            final(self).wf(),
            (final(self)@, outcome(r)) == Self::and_then(
                Self::made(old(self)@, ElemType::UnitVariant),
                Fact::VariantType {
                    elem: ElemId(old(self)@.next_id),
                    enum_name: name@,
                    variant_name: variant@,
                },
            ),
    {
        match self.get_fresh_elem_id(ElemType::UnitVariant) {
            Err(e) => Err(e),
            Ok(id) => {
                let r = self.backend.add_variant_type(id, name, variant);
                assert(self@ =~= Self::and_then(
                    Self::made(old(self)@, ElemType::UnitVariant),
                    Fact::VariantType {
                        elem: ElemId(old(self)@.next_id),
                        enum_name: name@,
                        variant_name: variant@,
                    },
                ).0);
                r
            },
        }
    }

    /// Takes the element that waits for a parent off the element stack.
    fn take_child(&mut self) -> (child: ElemId)
        requires
            old(self).wf(),
            old(self)@.has_child(),
        ensures
            final(self).wf(),
            final(self)@ == old(self)@.without_child(),
            child == old(self)@.elem_stack.last(),
            child.0 < old(self)@.next_id,
    {
        proof {
            lemma_wrapper_follows_child(self@);
        }
        let child = self.elem_stack.pop().unwrap();
        assert(self@ =~= old(self)@.without_child());
        child
    }

    /// Extracts a newtype struct whose content waits for a parent: a new
    /// element, its type name, and the content as its entry at position 0.
    pub fn serialize_newtype_struct(&mut self, name: &str) -> (r: Result<
        (),
        DatalogExtractionError,
    >)
        requires
            old(self).wf(),
            old(self)@.can_allocate(),
            old(self)@.has_child(),
        ensures
            final(self).wf(),
            (final(self)@, outcome(r)) == Self::wrapped(
                old(self)@,
                ElemType::NewtypeStruct,
                Fact::StructType { elem: ElemId(old(self)@.next_id), struct_name: name@ },
            ),
    {
        let ghost named = Fact::StructType { elem: ElemId(old(self)@.next_id), struct_name: name@ };
        let child_id = self.take_child();
        let id = match self.get_fresh_elem_id(ElemType::NewtypeStruct) {
            Err(e) => {
                return Err(e);
            },
            Ok(id) => id,
        };
        match self.backend.add_struct_type(id, name) {
            Err(e) => {
                assert(self@ =~= Self::wrapped(old(self)@, ElemType::NewtypeStruct, named).0);
                return Err(e);
            },
            Ok(_) => {},
        }
        let r = self.backend.add_tuple_entry(id, 0, child_id);
        assert(self@ =~= Self::wrapped(old(self)@, ElemType::NewtypeStruct, named).0);
        r
    }

    /// Extracts a newtype variant whose content waits for a parent: a new
    /// element, its type and variant names, and the content as its entry at
    /// position 0.
    pub fn serialize_newtype_variant(&mut self, name: &str, variant: &str) -> (r: Result<
        (),
        DatalogExtractionError,
    >)
        requires
            old(self).wf(),
            old(self)@.can_allocate(),
            old(self)@.has_child(),
        ensures
            final(self).wf(),
            (final(self)@, outcome(r)) == Self::wrapped(
                old(self)@,
                ElemType::NewtypeVariant,
                Fact::VariantType {
                    elem: ElemId(old(self)@.next_id),
                    enum_name: name@,
                    variant_name: variant@,
                },
            ),
    {
        let ghost named = Fact::VariantType {
            elem: ElemId(old(self)@.next_id),
            enum_name: name@,
            variant_name: variant@,
        };
        let child_id = self.take_child();
        let id = match self.get_fresh_elem_id(ElemType::NewtypeVariant) {
            Err(e) => {
                return Err(e);
            },
            Ok(id) => id,
        };
        match self.backend.add_variant_type(id, name, variant) {
            Err(e) => {
                assert(self@ =~= Self::wrapped(old(self)@, ElemType::NewtypeVariant, named).0);
                return Err(e);
            },
            Ok(_) => {},
        }
        let r = self.backend.add_tuple_entry(id, 0, child_id);
        assert(self@ =~= Self::wrapped(old(self)@, ElemType::NewtypeVariant, named).0);
        r
    }

    /// Makes a new element of the shape `elem_type` and opens it as a
    /// container.
    fn open_parent(&mut self, elem_type: ElemType) -> (r: Result<ElemId, DatalogExtractionError>)
        requires
            old(self).wf(),
            old(self)@.can_allocate(),
        ensures
            final(self).wf(),
            (final(self)@, outcome(r) is Ok) == (
                Self::opened(old(self)@, elem_type).0,
                Self::opened(old(self)@, elem_type).1 is Ok,
            ),
            outcome(r) matches Err(e) ==> Self::opened(old(self)@, elem_type).1 == Err::<
                (),
                ErrorModel,
            >(e),
            r matches Ok(id) ==> id == ElemId(old(self)@.next_id),
    {
        match self.get_fresh_elem_id(elem_type) {
            Err(e) => Err(e),
            Ok(id) => {
                proof {
                    lemma_children_linked_push(self@.parent_stack, id);
                    assert(self@.elem_stack.last() == id);
                }
                self.parent_stack.push((id, 0));
                assert(self@ =~= Self::opened(old(self)@, elem_type).0);
                Ok(id)
            },
        }
    }

    /// Opens a sequence: a new element whose children follow.
    pub fn serialize_seq(&mut self) -> (r: Result<(), DatalogExtractionError>)
        requires
            old(self).wf(),
            old(self)@.can_allocate(),
        ensures
            final(self).wf(),
            (final(self)@, outcome(r)) == Self::opened(old(self)@, ElemType::Sequence),
    {
        match self.open_parent(ElemType::Sequence) {
            Err(e) => Err(e),
            Ok(_) => Ok(()),
        }
    }

    /// Opens a tuple: a new element whose children follow.
    pub fn serialize_tuple(&mut self) -> (r: Result<(), DatalogExtractionError>)
        requires
            old(self).wf(),
            old(self)@.can_allocate(),
        ensures
            final(self).wf(),
            (final(self)@, outcome(r)) == Self::opened(old(self)@, ElemType::Tuple),
    {
        match self.open_parent(ElemType::Tuple) {
            Err(e) => Err(e),
            Ok(_) => Ok(()),
        }
    }

    /// Opens a tuple struct: a new element whose children follow, then its
    /// type name.
    pub fn serialize_tuple_struct(&mut self, name: &str) -> (r: Result<(), DatalogExtractionError>)
        requires
            old(self).wf(),
            old(self)@.can_allocate(),
        ensures
            final(self).wf(),
            (final(self)@, outcome(r)) == Self::and_then(
                Self::opened(old(self)@, ElemType::TupleStruct),
                Fact::StructType { elem: ElemId(old(self)@.next_id), struct_name: name@ },
            ),
    {
        match self.open_parent(ElemType::TupleStruct) {
            Err(e) => Err(e),
            Ok(id) => {
                let r = self.backend.add_struct_type(id, name);
                assert(self@ =~= Self::and_then(
                    Self::opened(old(self)@, ElemType::TupleStruct),
                    Fact::StructType { elem: ElemId(old(self)@.next_id), struct_name: name@ },
                ).0);
                r
            },
        }
    }

    /// Opens a tuple variant: a new element whose children follow, then its
    /// type and variant names.
    pub fn serialize_tuple_variant(&mut self, name: &str, variant: &str) -> (r: Result<
        (),
        DatalogExtractionError,
    >)
        requires
            old(self).wf(),
            old(self)@.can_allocate(),
        ensures
            final(self).wf(),
            (final(self)@, outcome(r)) == Self::and_then(
                Self::opened(old(self)@, ElemType::TupleVariant),
                Fact::VariantType {
                    elem: ElemId(old(self)@.next_id),
                    enum_name: name@,
                    variant_name: variant@,
                },
            ),
    {
        match self.open_parent(ElemType::TupleVariant) {
            Err(e) => Err(e),
            Ok(id) => {
                let r = self.backend.add_variant_type(id, name, variant);
                assert(self@ =~= Self::and_then(
                    Self::opened(old(self)@, ElemType::TupleVariant),
                    Fact::VariantType {
                        elem: ElemId(old(self)@.next_id),
                        enum_name: name@,
                        variant_name: variant@,
                    },
                ).0);
                r
            },
        }
    }

    /// Opens a map: a new element whose entries follow.
    pub fn serialize_map(&mut self) -> (r: Result<(), DatalogExtractionError>)
        requires
            old(self).wf(),
            old(self)@.can_allocate(),
        ensures
            final(self).wf(),
            (final(self)@, outcome(r)) == Self::opened(old(self)@, ElemType::Mapping),
    {
        match self.open_parent(ElemType::Mapping) {
            Err(e) => Err(e),
            Ok(_) => Ok(()),
        }
    }

    /// Opens a struct: a new element whose fields follow, then its type name.
    pub fn serialize_struct(&mut self, name: &str) -> (r: Result<(), DatalogExtractionError>)
        requires
            old(self).wf(),
            old(self)@.can_allocate(),
        ensures
            final(self).wf(),
            (final(self)@, outcome(r)) == Self::and_then(
                Self::opened(old(self)@, ElemType::Struct),
                Fact::StructType { elem: ElemId(old(self)@.next_id), struct_name: name@ },
            ),
    {
        match self.open_parent(ElemType::Struct) {
            Err(e) => Err(e),
            Ok(id) => {
                let r = self.backend.add_struct_type(id, name);
                assert(self@ =~= Self::and_then(
                    Self::opened(old(self)@, ElemType::Struct),
                    Fact::StructType { elem: ElemId(old(self)@.next_id), struct_name: name@ },
                ).0);
                r
            },
        }
    }

    /// Opens a struct variant: a new element whose fields follow, then its
    /// type and variant names.
    pub fn serialize_struct_variant(&mut self, name: &str, variant: &str) -> (r: Result<
        (),
        DatalogExtractionError,
    >)
        requires
            old(self).wf(),
            old(self)@.can_allocate(),
        ensures
            final(self).wf(),
            (final(self)@, outcome(r)) == Self::and_then(
                Self::opened(old(self)@, ElemType::StructVariant),
                Fact::VariantType {
                    elem: ElemId(old(self)@.next_id),
                    enum_name: name@,
                    variant_name: variant@,
                },
            ),
    {
        match self.open_parent(ElemType::StructVariant) {
            Err(e) => Err(e),
            Ok(id) => {
                let r = self.backend.add_variant_type(id, name, variant);
                assert(self@ =~= Self::and_then(
                    Self::opened(old(self)@, ElemType::StructVariant),
                    Fact::VariantType {
                        elem: ElemId(old(self)@.next_id),
                        enum_name: name@,
                        variant_name: variant@,
                    },
                ).0);
                r
            },
        }
    }

    /// Counts one child more for the innermost open container.
    fn advance(&mut self)
        requires
            old(self).wf(),
            old(self)@.in_container(),
            children_linked(old(self)@.parent_stack) + old(self)@.elem_stack.len() + 1
                < old(self)@.next_id,
        ensures
            final(self).wf(),
            final(self)@ == old(self)@.advanced(),
    {
        let innermost = self.parent_stack.len() - 1;
        let (parent_id, pos) = self.parent_stack[innermost];
        proof {
            lemma_children_linked_advance(self@.parent_stack, (pos + 1) as usize);
        }
        self.parent_stack.set(innermost, (parent_id, pos + 1));
        assert(self@ =~= old(self)@.advanced());
        assert(self@.wf()) by {
            assert forall|k: int| 0 <= k < self@.parent_stack.len() implies self@.elem_stack.contains(
                (#[trigger] self@.parent_stack[k]).0,
            ) by {
                assert(self@.parent_stack[k].0 == old(self)@.parent_stack[k].0);
            }
            assert forall|i: int, j: int|
                0 <= i < j < self@.parent_stack.len() implies (#[trigger] self@.parent_stack[i]).0.0
                < (#[trigger] self@.parent_stack[j]).0.0 by {
                assert(self@.parent_stack[i].0 == old(self)@.parent_stack[i].0);
                assert(self@.parent_stack[j].0 == old(self)@.parent_stack[j].0);
            }
        }
    }

    /// Links the element that waits for a parent to the innermost open
    /// container, a sequence or a tuple of the shape `elem_type`, at the
    /// container's next position.
    pub fn serialize_tuple_or_seq_element(&mut self, elem_type: ElemType) -> (r: Result<
        (),
        DatalogExtractionError,
    >)
        requires
            old(self).wf(),
            old(self)@.in_container(),
            old(self)@.has_child(),
            elem_type is Sequence || elem_type.is_tuple_like(),
        ensures
            final(self).wf(),
            (final(self)@, outcome(r)) == Self::element(old(self)@, elem_type),
    {
        let child_id = self.take_child();
        let (parent_id, pos) = self.parent_stack[self.parent_stack.len() - 1];
        let linked = match elem_type {
            ElemType::Sequence => self.backend.add_seq_entry(parent_id, pos, child_id),
            _ => self.backend.add_tuple_entry(parent_id, pos, child_id),
        };
        match linked {
            Err(e) => {
                assert(self@ =~= Self::element(old(self)@, elem_type).0);
                Err(e)
            },
            Ok(_) => {
                self.advance();
                assert(self@ =~= Self::element(old(self)@, elem_type).0);
                Ok(())
            },
        }
    }

    /// Closes the innermost open container and gives its identifier.
    pub fn end_parent(&mut self) -> (r: Result<ElemId, DatalogExtractionError>)
        requires
            old(self).wf(),
            old(self)@.in_container(),
        ensures
            final(self).wf(),
            final(self)@ == Self::closed(old(self)@),
            r matches Ok(id) && id == old(self)@.parent_stack.last().0,
    {
        proof {
            lemma_children_linked_advance(self@.parent_stack, self@.parent_stack.last().1);
        }
        let (parent_id, _) = self.parent_stack.pop().unwrap();
        assert(self@ =~= Self::closed(old(self)@));
        Ok(parent_id)
    }

    /// Links the element that waits for a parent to the innermost open
    /// container, a struct or a struct variant, as its field `key`.
    pub fn serialize_struct_element(&mut self, key: &str) -> (r: Result<
        (),
        DatalogExtractionError,
    >)
        requires
            old(self).wf(),
            old(self)@.in_container(),
            old(self)@.has_child(),
        ensures
            final(self).wf(),
            (final(self)@, outcome(r)) == Self::field(old(self)@, key@),
    {
        let (parent_id, _) = self.parent_stack[self.parent_stack.len() - 1];
        let val_id = self.take_child();
        let r = self.backend.add_struct_entry(parent_id, key, val_id);
        assert(self@ =~= Self::field(old(self)@, key@).0);
        r
    }

    /// Links the key and the value that wait for a parent to the innermost
    /// open container, a map, as one entry.
    pub fn serialize_value(&mut self) -> (r: Result<(), DatalogExtractionError>)
        requires
            old(self).wf(),
            old(self)@.has_entry(),
        ensures
            final(self).wf(),
            (final(self)@, outcome(r)) == Self::entry(old(self)@),
    {
        proof {
            lemma_container_precedes_entry(self@);
        }
        let (parent_id, _) = self.parent_stack[self.parent_stack.len() - 1];
        let val_id = self.take_child();
        let key_id = self.take_child();
        match self.backend.add_map_entry(parent_id, key_id, val_id) {
            Err(e) => {
                assert(self@ =~= Self::entry(old(self)@).0);
                Err(e)
            },
            Ok(_) => {
                self.advance();
                assert(self@ =~= Self::entry(old(self)@).0);
                Ok(())
            },
        }
    }
}

} // verus!
