//! Reference validation: a mutation goes ahead only if every entity that it
//! refers to exists.
//!
//! The caller looks each reference up, in any order and at once if it
//! likes, and hands the outcomes back in the order of the references. Which
//! failure is reported depends on that order and on the kinds alone, never
//! on which lookup answered first.

use vstd::prelude::*;
use crate::ident::EntityId;

verus! {

/// What a reference points at.
#[derive(Debug, Clone, Copy, PartialEq, Eq, Structural)]
pub enum ReferenceKind {
    /// One of several tags.
    Tag,
    /// The category, the primary single reference.
    Category,
    /// The owner, a further single reference.
    Owner,
}

/// One entity that a mutation depends on.
#[derive(Debug, Clone, Copy, PartialEq, Eq, Structural)]
pub struct Reference {
    pub kind: ReferenceKind,
    pub id: EntityId,
}

/// The entities that a mutation depends on.
#[derive(Debug, Clone)]
pub struct ReferenceSet {
    pub references: Vec<Reference>,
}

/// A lookup that could not be made: the service that owns the entity did
/// not answer.
#[derive(Debug, Clone, PartialEq, Eq)]
pub struct TransportError {
    pub message: String,
}

/// Why a mutation may not go ahead.
#[derive(Debug, Clone, PartialEq, Eq)]
pub enum ValidationError {
    /// There is not one outcome for each reference.
    Incomplete,
    /// A lookup could not be made.
    Transport(TransportError),
    /// A referenced entity does not exist.
    MissingReference { kind: ReferenceKind, id: EntityId },
}

/// The first position from `from` on whose lookup could not be made.
pub open spec fn first_failed_from(
    outcomes: Seq<Result<bool, TransportError>>,
    from: nat,
) -> Option<nat>
    decreases outcomes.len() - from,
{
    if from >= outcomes.len() {
        None
    } else if outcomes[from as int] is Err {
        Some(from)
    } else {
        first_failed_from(outcomes, from + 1)
    }
}

/// Whether the reference at `i` is of kind `kind` and was found missing.
pub open spec fn is_missing(
    references: Seq<Reference>,
    outcomes: Seq<Result<bool, TransportError>>,
    kind: ReferenceKind,
    i: int,
) -> bool {
    &&& 0 <= i < references.len()
    &&& i < outcomes.len()
    &&& references[i].kind == kind
    &&& outcomes[i] == Ok::<bool, TransportError>(false)
}

/// The first position from `from` on with a missing reference of `kind`.
pub open spec fn first_missing_from(
    references: Seq<Reference>,
    outcomes: Seq<Result<bool, TransportError>>,
    kind: ReferenceKind,
    from: nat,
) -> Option<nat>
    decreases references.len() - from,
{
    if from >= references.len() {
        None
    } else if is_missing(references, outcomes, kind, from as int) {
        Some(from)
    } else {
        first_missing_from(references, outcomes, kind, from + 1)
    }
}

/// The missing-reference error for the first missing reference of `kind`.
pub open spec fn missing_of(
    references: Seq<Reference>,
    outcomes: Seq<Result<bool, TransportError>>,
    kind: ReferenceKind,
) -> Option<ValidationError> {
    match first_missing_from(references, outcomes, kind, 0) {
        Some(i) => Some(ValidationError::MissingReference { kind, id: references[i as int].id }),
        None => None,
    }
}

/// The verdict on a set of references and the outcomes of their lookups.
///
/// All outcomes are weighed together. A lookup that could not be made wins
/// over every missing entity; among missing entities a tag wins over the
/// category and the category over the owner; within one kind the first in
/// the set's order is reported.
pub open spec fn verdict(
    references: Seq<Reference>,
    outcomes: Seq<Result<bool, TransportError>>,
) -> Result<(), ValidationError> {
    if references.len() != outcomes.len() {
        Err(ValidationError::Incomplete)
    } else if first_failed_from(outcomes, 0) is Some {
        Err(
            ValidationError::Transport(outcomes[first_failed_from(outcomes, 0).unwrap() as int]->Err_0),
        )
    } else if missing_of(references, outcomes, ReferenceKind::Tag) is Some {
        Err(missing_of(references, outcomes, ReferenceKind::Tag).unwrap())
    } else if missing_of(references, outcomes, ReferenceKind::Category) is Some {
        Err(missing_of(references, outcomes, ReferenceKind::Category).unwrap())
    } else if missing_of(references, outcomes, ReferenceKind::Owner) is Some {
        Err(missing_of(references, outcomes, ReferenceKind::Owner).unwrap())
    } else {
        Ok(())
    }
}

impl ReferenceSet {
    /// The references of a listing: its tags in their order, then its
    /// category, then its owner.
    pub open spec fn listing_references(
        category_id: EntityId,
        owner_id: EntityId,
        tags: Seq<EntityId>,
    ) -> Seq<Reference> {
        Seq::new(tags.len(), |i: int| Reference { kind: ReferenceKind::Tag, id: tags[i] }).push(
            Reference { kind: ReferenceKind::Category, id: category_id },
        ).push(Reference { kind: ReferenceKind::Owner, id: owner_id })
    }

    /// A set without references.
    pub fn new() -> (set: ReferenceSet)
        ensures
            set.references@ == Seq::<Reference>::empty(),
    {
        ReferenceSet { references: Vec::new() }
    }

    /// Adds a reference behind those that the set holds.
    pub fn insert(&mut self, kind: ReferenceKind, id: EntityId)
        ensures
            final(self).references@ == old(self).references@.push(Reference { kind, id }),
    {
        self.references.push(Reference { kind, id });
    }

    /// The set that a listing depends on.
    pub fn for_listing(category_id: EntityId, owner_id: EntityId, tags: &Vec<EntityId>) -> (set:
        ReferenceSet)
        ensures
            set.references@ == ReferenceSet::listing_references(category_id, owner_id, tags@),
    {
        let mut references: Vec<Reference> = Vec::new();
        let mut i: usize = 0;
        while i < tags.len()
            invariant
                0 <= i <= tags@.len(),
                references@ == Seq::new(
                    i as nat,
                    |k: int| Reference { kind: ReferenceKind::Tag, id: tags@[k] },
                ),
            decreases tags@.len() - i,
        {
            references.push(Reference { kind: ReferenceKind::Tag, id: tags[i] });
            i += 1;
            assert(references@ =~= Seq::new(
                i as nat,
                |k: int| Reference { kind: ReferenceKind::Tag, id: tags@[k] },
            ));
        }
        references.push(Reference { kind: ReferenceKind::Category, id: category_id });
        references.push(Reference { kind: ReferenceKind::Owner, id: owner_id });
        ReferenceSet { references }
    }

    /// How many lookups the set asks for.
    pub fn len(&self) -> (n: usize)
        ensures
            n == self.references@.len(),
    {
        self.references.len()
    }

    /// Weighs the outcomes of the lookups, `outcomes[i]` being that of
    /// `references[i]`: `Ok(true)` for an entity that exists, `Ok(false)`
    /// for one that does not, an error where the lookup could not be made.
    pub fn validate(&self, outcomes: &Vec<Result<bool, TransportError>>) -> (r: Result<
        (),
        ValidationError,
    >)
        ensures
            r == verdict(self.references@, outcomes@),
    {
        if self.references.len() != outcomes.len() {
            return Err(ValidationError::Incomplete);
        }
        let mut i: usize = 0;
        while i < outcomes.len()
            invariant
                0 <= i <= outcomes@.len(),
                self.references@.len() == outcomes@.len(),
                first_failed_from(outcomes@, 0) == first_failed_from(outcomes@, i as nat),
            decreases outcomes@.len() - i,
        {
            match &outcomes[i] {
                Err(e) => {
                    let message = e.message.clone();
                    return Err(ValidationError::Transport(TransportError { message }));
                },
                Ok(_) => {},
            }
            i += 1;
        }
        match self.missing(outcomes, ReferenceKind::Tag) {
            Some(e) => {
                return Err(e);
            },
            None => {},
        }
        match self.missing(outcomes, ReferenceKind::Category) {
            Some(e) => {
                return Err(e);
            },
            None => {},
        }
        match self.missing(outcomes, ReferenceKind::Owner) {
            Some(e) => {
                return Err(e);
            },
            None => {},
        }
        Ok(())
    }

    /// The error for the first missing reference of `kind`, if there is one.
    fn missing(&self, outcomes: &Vec<Result<bool, TransportError>>, kind: ReferenceKind) -> (r:
        Option<ValidationError>)
        requires
            self.references@.len() == outcomes@.len(),
        ensures
            r == missing_of(self.references@, outcomes@, kind),
    {
        let mut i: usize = 0;
        while i < self.references.len()
            invariant
                0 <= i <= self.references@.len(),
                self.references@.len() == outcomes@.len(),
                first_missing_from(self.references@, outcomes@, kind, 0) == first_missing_from(
                    self.references@,
                    outcomes@,
                    kind,
                    i as nat,
                ),
            decreases self.references@.len() - i,
        {
            let reference = self.references[i];
            if reference.kind == kind {
                match &outcomes[i] {
                    Ok(found) => {
                        if !*found {
                            return Some(
                                ValidationError::MissingReference { kind, id: reference.id },
                            );
                        }
                    },
                    Err(_) => {},
                }
            }
            i += 1;
        }
        None
    }
}

/// What `first_failed_from` finds is the first failed lookup from `from`
/// on, and it finds none only if there is none.
pub proof fn lemma_first_failed(outcomes: Seq<Result<bool, TransportError>>, from: nat)
    ensures
        match first_failed_from(outcomes, from) {
            Some(i) => from <= i < outcomes.len() && outcomes[i as int] is Err && forall|j: int|
                from <= j < i ==> (#[trigger] outcomes[j]) is Ok,
            None => forall|j: int| from <= j < outcomes.len() ==> (#[trigger] outcomes[j]) is Ok,
        },
    decreases outcomes.len() - from,
{
    if from < outcomes.len() && outcomes[from as int] is Ok {
        lemma_first_failed(outcomes, from + 1);
    }
}

/// What `first_missing_from` finds is the first missing reference of the
/// kind from `from` on, and it finds none only if there is none.
pub proof fn lemma_first_missing(
    references: Seq<Reference>,
    outcomes: Seq<Result<bool, TransportError>>,
    kind: ReferenceKind,
    from: nat,
)
    ensures
        match first_missing_from(references, outcomes, kind, from) {
            Some(i) => from <= i && is_missing(references, outcomes, kind, i as int) && forall|
                j: int,
            |
                from <= j < i ==> !is_missing(references, outcomes, kind, j),
            None => forall|j: int| from <= j ==> !is_missing(references, outcomes, kind, j),
        },
    decreases references.len() - from,
{
    if from < references.len() && !is_missing(references, outcomes, kind, from as int) {
        lemma_first_missing(references, outcomes, kind, from + 1);
    }
}

/// All or nothing: the verdict is favourable exactly when every reference
/// has an outcome and every outcome says that the entity exists.
pub proof fn lemma_all_or_nothing(
    references: Seq<Reference>,
    outcomes: Seq<Result<bool, TransportError>>,
)
    ensures
        verdict(references, outcomes) is Ok <==> (references.len() == outcomes.len() && forall|
            i: int,
        |
            0 <= i < outcomes.len() ==> #[trigger] outcomes[i] == Ok::<bool, TransportError>(true)),
{
    lemma_first_failed(outcomes, 0);
    lemma_first_missing(references, outcomes, ReferenceKind::Tag, 0);
    lemma_first_missing(references, outcomes, ReferenceKind::Category, 0);
    lemma_first_missing(references, outcomes, ReferenceKind::Owner, 0);
    if references.len() == outcomes.len() {
        if verdict(references, outcomes) is Ok {
            assert forall|i: int| 0 <= i < outcomes.len() implies #[trigger] outcomes[i] == Ok::<
                bool,
                TransportError,
            >(true) by {
                assert(outcomes[i] is Ok);
                match references[i].kind {
                    ReferenceKind::Tag => {
                        assert(!is_missing(references, outcomes, ReferenceKind::Tag, i));
                    },
                    ReferenceKind::Category => {
                        assert(!is_missing(references, outcomes, ReferenceKind::Category, i));
                    },
                    ReferenceKind::Owner => {
                        assert(!is_missing(references, outcomes, ReferenceKind::Owner, i));
                    },
                }
                assert(outcomes[i]->Ok_0 == true);
            }
        }
        if forall|i: int|
            0 <= i < outcomes.len() ==> #[trigger] outcomes[i] == Ok::<bool, TransportError>(true) {
            if first_failed_from(outcomes, 0) is Some {
                let i = first_failed_from(outcomes, 0).unwrap() as int;
                assert(outcomes[i] is Err);
            }
        }
    }
}

/// The order of precedence: a lookup that could not be made is reported
/// before any missing entity, a missing tag before a missing category, and
/// a missing category before a missing owner.
pub proof fn lemma_precedence(
    references: Seq<Reference>,
    outcomes: Seq<Result<bool, TransportError>>,
)
    requires
        references.len() == outcomes.len(),
    ensures
        (exists|i: int| 0 <= i < outcomes.len() && (#[trigger] outcomes[i]) is Err) <==> verdict(
            references,
            outcomes,
        ) matches Err(ValidationError::Transport(_)),
        (forall|i: int| 0 <= i < outcomes.len() ==> (#[trigger] outcomes[i]) is Ok) && (exists|
            i: int,
        |
            is_missing(references, outcomes, ReferenceKind::Tag, i)) ==> verdict(
            references,
            outcomes,
        ) matches Err(ValidationError::MissingReference { kind: ReferenceKind::Tag, .. }),
        (forall|i: int| 0 <= i < outcomes.len() ==> (#[trigger] outcomes[i]) is Ok) && (forall|
            i: int,
        |
            !is_missing(references, outcomes, ReferenceKind::Tag, i)) && (exists|i: int|
            is_missing(references, outcomes, ReferenceKind::Category, i)) ==> verdict(
            references,
            outcomes,
        ) matches Err(ValidationError::MissingReference { kind: ReferenceKind::Category, .. }),
        (forall|i: int| 0 <= i < outcomes.len() ==> (#[trigger] outcomes[i]) is Ok) && (forall|
            i: int,
        |
            !is_missing(references, outcomes, ReferenceKind::Tag, i)) && (forall|i: int|
            !is_missing(references, outcomes, ReferenceKind::Category, i)) && (exists|i: int|
            is_missing(references, outcomes, ReferenceKind::Owner, i)) ==> verdict(
            references,
            outcomes,
        ) matches Err(ValidationError::MissingReference { kind: ReferenceKind::Owner, .. }),
{
    lemma_first_failed(outcomes, 0);
    lemma_first_missing(references, outcomes, ReferenceKind::Tag, 0);
    lemma_first_missing(references, outcomes, ReferenceKind::Category, 0);
    lemma_first_missing(references, outcomes, ReferenceKind::Owner, 0);
    if first_failed_from(outcomes, 0) is Some {
        let i = first_failed_from(outcomes, 0).unwrap() as int;
        assert(outcomes[i] is Err);
    }
}

/// The error names the missing entity: a missing-reference verdict carries
/// the kind and the identifier of a reference of the set that was looked up
/// and not found.
pub proof fn lemma_missing_reference_is_named(
    references: Seq<Reference>,
    outcomes: Seq<Result<bool, TransportError>>,
)
    ensures
        verdict(references, outcomes) matches Err(ValidationError::MissingReference { kind, id })
            ==> exists|i: int|
            is_missing(references, outcomes, kind, i) && (#[trigger] references[i]).id == id,
{
    lemma_first_missing(references, outcomes, ReferenceKind::Tag, 0);
    lemma_first_missing(references, outcomes, ReferenceKind::Category, 0);
    lemma_first_missing(references, outcomes, ReferenceKind::Owner, 0);
    if let Err(ValidationError::MissingReference { kind, id }) = verdict(references, outcomes) {
        let i = first_missing_from(references, outcomes, kind, 0).unwrap() as int;
        assert(is_missing(references, outcomes, kind, i) && references[i].id == id);
    }
}

} // verus!
