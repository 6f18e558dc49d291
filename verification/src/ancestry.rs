//! Containment, ancestry and least-common-ancestor queries: pure walks over
//! the parent table, bounded because every parent pointer goes strictly
//! downward in creation order.

use vstd::prelude::*;
use crate::element::ElementType;
use crate::errors::StateMachineError;
use crate::errors::StateMachineResult;
use crate::machine::Db;

verus! {

impl<G: Fn() -> bool, B: Fn()> Db<G, B> {
    /// Whether `parent` appears on the proper parent chain above `child`.
    pub open spec fn chain_contains(self, child: int, parent: int) -> bool
        decreases child,
        when self.lens_ok() && self.parents_ok() && 0 <= child < self.len()
    {
        if child == 0 {
            false
        } else if self.parent_of(child) == parent {
            true
        } else {
            self.chain_contains(self.parent_of(child), parent)
        }
    }

    /// What `is_contained_in` decides: both identifiers are in range, they
    /// differ, and `parent` lies on the parent chain above `child`.
    pub open spec fn spec_is_contained_in(self, child: int, parent: int) -> bool {
        &&& self.valid_id(child)
        &&& self.valid_id(parent)
        &&& child != parent
        &&& self.chain_contains(child, parent)
    }

    /// What `ancestor` decides: containment extended with reflexivity.
    pub open spec fn spec_ancestor(self, child: int, parent: int) -> bool {
        child == parent || self.spec_is_contained_in(child, parent)
    }

    /// Everything on the proper parent chain above an element was created
    /// before it.
    pub proof fn lemma_chain_below(self, child: int, parent: int)
        requires
            self.lens_ok(),
            self.parents_ok(),
            0 <= child < self.len(),
            self.chain_contains(child, parent),
        ensures
            0 <= parent < child,
        decreases child,
    {
        if self.parent_of(child) != parent {
            self.lemma_chain_below(self.parent_of(child), parent);
        }
    }

    /// The parent chain of every element but the root reaches the root.
    pub proof fn lemma_chain_reaches_root(self, child: int)
        requires
            self.lens_ok(),
            self.parents_ok(),
            0 < child < self.len(),
        ensures
            self.chain_contains(child, 0),
        decreases child,
    {
        if self.parent_of(child) != 0 {
            self.lemma_chain_reaches_root(self.parent_of(child));
        }
    }

    /// The parent chain is transitive.
    pub proof fn lemma_chain_transitive(self, x: int, y: int, z: int)
        requires
            self.lens_ok(),
            self.parents_ok(),
            0 <= x < self.len(),
            self.chain_contains(x, y),
            self.chain_contains(y, z),
        ensures
            self.chain_contains(x, z),
        decreases x,
    {
        self.lemma_chain_below(x, y);
        if self.parent_of(x) == y {
            self.lemma_chain_below(y, z);
        } else {
            self.lemma_chain_transitive(self.parent_of(x), y, z);
        }
    }

    /// Containment never relates an element to itself.
    pub proof fn lemma_containment_irreflexive(self, x: int)
        ensures
            !self.spec_is_contained_in(x, x),
    {
    }

    /// Containment is transitive: whatever contains the container of an
    /// element also contains the element. Together with irreflexivity this
    /// makes containment a strict partial order.
    pub proof fn lemma_containment_transitive(self, x: int, y: int, z: int)
        requires
            self.wf(),
            self.spec_is_contained_in(x, y),
            self.spec_is_contained_in(y, z),
        ensures
            self.spec_is_contained_in(x, z),
    {
        self.lemma_chain_below(x, y);
        self.lemma_chain_below(y, z);
        self.lemma_chain_transitive(x, y, z);
    }

    /// Every element is an ancestor of itself, unlike containment, which
    /// excludes self.
    pub proof fn lemma_ancestor_reflexive(self, x: int)
        ensures
            self.spec_ancestor(x, x),
    {
    }

    /// Whether `child` is transitively contained in `parent`. False when the
    /// two are equal or either identifier is out of range.
    pub fn is_contained_in(&self, child: usize, parent: usize) -> (r: bool)
        requires
            self.wf(),
        ensures
            r == self.spec_is_contained_in(child as int, parent as int),
    {
        if child >= self.elements.len() {
            return false;
        }
        if parent >= self.elements.len() {
            return false;
        }
        if child == parent {
            return false;
        }
        self.contained_walk(child, parent)
    }

    /// The recursive parent-chain walk behind `is_contained_in`.
    fn contained_walk(&self, child: usize, parent: usize) -> (r: bool)
        requires
            self.wf(),
            (child as int) < self.len(),
        ensures
            r == self.chain_contains(child as int, parent as int),
        decreases child,
    {
        if child == 0 {
            false
        } else if self.parents[child] == parent {
            true
        } else {
            proof {
                assert(0 <= self.parent_of(child as int) < child as int);
            }
            self.contained_walk(self.parents[child], parent)
        }
    }

    /// Whether `child` equals `parent` or is transitively contained in it.
    pub fn ancestor(&self, child: usize, parent: usize) -> (r: bool)
        requires
            self.wf(),
        ensures
            r == self.spec_ancestor(child as int, parent as int),
    {
        if child == parent {
            true
        } else {
            self.is_contained_in(child, parent)
        }
    }

    /// Whether `parent` is an ancestor of `child`; `ancestor` with the
    /// argument order reversed.
    pub fn ancestor_of(&self, parent: usize, child: usize) -> (r: bool)
        requires
            self.wf(),
        ensures
            r == self.spec_ancestor(child as int, parent as int),
    {
        self.ancestor(child, parent)
    }

    /// Whether `child` has `parent` as an ancestor; an alias of `ancestor`.
    pub fn has_ancestor(&self, child: usize, parent: usize) -> (r: bool)
        requires
            self.wf(),
        ensures
            r == self.spec_ancestor(child as int, parent as int),
    {
        self.ancestor(child, parent)
    }

    /// What `lca` returns on two valid identifiers: when one operand is an
    /// ancestor of the other, the region directly containing the descendant
    /// side (or that operand itself when it is already a region); otherwise
    /// the recursion moves both operands to their parents. Reaching the state
    /// machine element means the operands share no ancestor region.
    pub open spec fn spec_lca(self, s1: usize, s2: usize) -> Result<usize, StateMachineError>
        decreases s1 + s2,
        when self.wf() && (s1 as int) < self.len() && (s2 as int) < self.len()
    {
        if self.spec_ancestor(s1 as int, s2 as int) {
            match self.kind_of(s2 as int) {
                ElementType::Vertex(_) => Ok(self.parents@[s2 as int]),
                ElementType::Transition => Ok(self.parents@[s2 as int]),
                ElementType::StateMachine => Err(StateMachineError::NoCommonAncestor(s1, s2)),
                ElementType::EventType => Err(StateMachineError::InvalidVertex(s2)),
                ElementType::Region => Ok(s2),
            }
        } else if self.spec_ancestor(s2 as int, s1 as int) {
            match self.kind_of(s1 as int) {
                ElementType::Vertex(_) => Ok(self.parents@[s1 as int]),
                ElementType::Transition => Ok(self.parents@[s1 as int]),
                ElementType::StateMachine => Err(StateMachineError::NoCommonAncestor(s1, s2)),
                ElementType::EventType => Err(StateMachineError::InvalidVertex(s1)),
                ElementType::Region => Ok(s1),
            }
        } else {
            proof {
                if s1 == 0 {
                    self.lemma_chain_reaches_root(s2 as int);
                }
                if s2 == 0 {
                    self.lemma_chain_reaches_root(s1 as int);
                }
            }
            self.spec_lca(self.parents@[s1 as int], self.parents@[s2 as int])
        }
    }

    /// A successful least-common-ancestor query always names a region.
    pub proof fn lemma_lca_ok_is_region(self, s1: usize, s2: usize)
        requires
            self.wf(),
            (s1 as int) < self.len(),
            (s2 as int) < self.len(),
        ensures
            self.spec_lca(s1, s2) matches Ok(r) ==> self.is_region_id(r as int),
        decreases s1 + s2,
    {
        if self.spec_ancestor(s1 as int, s2 as int) {
            if self.kind_of(s2 as int) matches ElementType::Vertex(_) {
                assert(self.element_ok(s2 as int));
                assert(self.vertex_entry_ok(self.idx_of(s2 as int)));
                assert(self.is_region_id(self.parent_of(s2 as int)));
            } else if self.kind_of(s2 as int) == ElementType::Transition {
                assert(self.element_ok(s2 as int));
                assert(self.transition_entry_ok(self.idx_of(s2 as int)));
                assert(self.is_region_id(self.parent_of(s2 as int)));
            }
        } else if self.spec_ancestor(s2 as int, s1 as int) {
            if self.kind_of(s1 as int) matches ElementType::Vertex(_) {
                assert(self.element_ok(s1 as int));
                assert(self.vertex_entry_ok(self.idx_of(s1 as int)));
                assert(self.is_region_id(self.parent_of(s1 as int)));
            } else if self.kind_of(s1 as int) == ElementType::Transition {
                assert(self.element_ok(s1 as int));
                assert(self.transition_entry_ok(self.idx_of(s1 as int)));
                assert(self.is_region_id(self.parent_of(s1 as int)));
            }
        } else {
            if s1 == 0 {
                self.lemma_chain_reaches_root(s2 as int);
            }
            if s2 == 0 {
                self.lemma_chain_reaches_root(s1 as int);
            }
            assert(0 < s1 && 0 < s2);
            assert(0 <= self.parent_of(s1 as int) < s1 as int);
            assert(0 <= self.parent_of(s2 as int) < s2 as int);
            self.lemma_lca_ok_is_region(self.parents@[s1 as int], self.parents@[s2 as int]);
        }
    }

    /// The least common ancestor region of `s1` and `s2`: the innermost
    /// region containing both. When one operand contains the other, this is
    /// the region directly containing the contained operand.
    pub fn lca(&self, s1: usize, s2: usize) -> (r: StateMachineResult<usize>)
        requires
            self.wf(),
        ensures
            !self.valid_id(s1 as int) ==> r == Err::<usize, _>(StateMachineError::InvalidDbId(s1)),
            self.valid_id(s1 as int) && !self.valid_id(s2 as int) ==> r == Err::<usize, _>(
                StateMachineError::InvalidDbId(s2),
            ),
            self.valid_id(s1 as int) && self.valid_id(s2 as int) ==> r == self.spec_lca(s1, s2),
        decreases s1 + s2,
    {
        self.is_valid_dbid(s1)?;
        self.is_valid_dbid(s2)?;
        if self.ancestor(s1, s2) {
            match self.elements[s2].element_type {
                ElementType::Vertex(_) => Ok(self.parents[s2]),
                ElementType::Transition => Ok(self.parents[s2]),
                ElementType::StateMachine => Err(StateMachineError::NoCommonAncestor(s1, s2)),
                ElementType::EventType => Err(StateMachineError::InvalidVertex(s2)),
                ElementType::Region => Ok(s2),
            }
        } else if self.ancestor(s2, s1) {
            match self.elements[s1].element_type {
                ElementType::Vertex(_) => Ok(self.parents[s1]),
                ElementType::StateMachine => Err(StateMachineError::NoCommonAncestor(s1, s2)),
                ElementType::EventType => Err(StateMachineError::InvalidVertex(s1)),
                ElementType::Region => Ok(s1),
                ElementType::Transition => Ok(self.parents[s1]),
            }
        } else {
            proof {
                if s1 == 0 {
                    self.lemma_chain_reaches_root(s2 as int);
                }
                if s2 == 0 {
                    self.lemma_chain_reaches_root(s1 as int);
                }
            }
            self.lca(self.parents[s1], self.parents[s2])
        }
    }

    /// The least common ancestor state of `s1` and `s2`: the owner (state or
    /// state machine) of their least common ancestor region.
    pub fn lca_state(&self, s1: usize, s2: usize) -> (r: StateMachineResult<usize>)
        requires
            self.wf(),
        ensures
            !self.valid_id(s1 as int) ==> r == Err::<usize, _>(StateMachineError::InvalidDbId(s1)),
            self.valid_id(s1 as int) && !self.valid_id(s2 as int) ==> r == Err::<usize, _>(
                StateMachineError::InvalidDbId(s2),
            ),
            self.valid_id(s1 as int) && self.valid_id(s2 as int) ==> match self.spec_lca(s1, s2) {
                Ok(l) => r == Ok::<_, StateMachineError>(self.parents@[l as int]),
                Err(e) => r == Err::<usize, _>(e),
            },
    {
        let l = self.lca(s1, s2)?;
        proof {
            self.lemma_lca_ok_is_region(s1, s2);
        }
        Ok(self.parents[l])
    }
}

} // verus!
