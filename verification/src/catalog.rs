//! The completion-model catalog: named model entries with an active flag,
//! created and maintained by administrators.

use vstd::prelude::*;
use crate::errors::RagError;
use crate::models::AIModel;
use crate::models::CreateAIModelRequest;
use crate::models::UpdateAIModelRequest;
use crate::models::clone_opt_string;
use crate::store::lemma_filter_all_pass;
use crate::store::lemma_remove_single_fail;
use crate::text::str_eq;

verus! {

/// Some stored model carries this id.
pub open spec fn has_model(models: Seq<AIModel>, id: Seq<char>) -> bool {
    exists|i: int| 0 <= i < models.len() && (#[trigger] models[i]).id@ == id
}

/// A model entry with an update request applied: present fields replace the
/// stored ones, absent fields keep them; the prompt and timestamps stay.
pub open spec fn apply_update(m: AIModel, u: UpdateAIModelRequest) -> AIModel {
    AIModel {
        api_model_name: if u.api_model_name is Some {
            u.api_model_name->0
        } else {
            m.api_model_name
        },
        display_name: if u.display_name is Some {
            u.display_name->0
        } else {
            m.display_name
        },
        provider: if u.provider is Some {
            u.provider->0
        } else {
            m.provider
        },
        is_active: if u.is_active is Some {
            u.is_active->0
        } else {
            m.is_active
        },
        ..m
    }
}

/// The stored model entries, in creation order.
pub struct ModelCatalog {
    pub models: Vec<AIModel>,
}

impl ModelCatalog {
    /// Validity: unique ids.
    pub open spec fn wf(self) -> bool {
        forall|i: int, j: int|
            0 <= i < j < self.models@.len() ==> (#[trigger] self.models@[i]).id@
                != (#[trigger] self.models@[j]).id@
    }

    /// An empty catalog.
    pub fn new() -> (r: Self)
        ensures
            r.wf(),
            r.models@.len() == 0,
    {
        ModelCatalog { models: Vec::new() }
    }

    /// Finds the position of the model with this id, if any.
    fn find_model(&self, id: &str) -> (r: Option<usize>)
        ensures
            match r {
                Some(i) => i < self.models@.len() && self.models@[i as int].id@ == id@,
                None => !has_model(self.models@, id@),
            },
    {
        let n = self.models.len();
        let mut i: usize = 0;
        while i < n
            invariant
                n == self.models@.len(),
                i <= n,
                forall|j: int| 0 <= j < i ==> (#[trigger] self.models@[j]).id@ != id@,
            decreases n - i,
        {
            if str_eq(self.models[i].id.as_str(), id) {
                return Some(i);
            }
            i = i + 1;
        }
        None
    }

    /// Adds an active model entry under a caller-supplied fresh id, with the
    /// default provider when none is named. Fails with a storage error,
    /// changing nothing, exactly when the id is taken.
    pub fn add_model(&mut self, id: String, req: CreateAIModelRequest, now: i64) -> (r: Result<
        (),
        RagError,
    >)
        requires
            old(self).wf(),
        ensures
            final(self).wf(),
            match r {
                Ok(()) => {
                    &&& !has_model(old(self).models@, id@)
                    &&& final(self).models@.len() == old(self).models@.len() + 1
                    &&& final(self).models@.take(old(self).models@.len() as int) == old(
                        self,
                    ).models@
                    &&& ({
                        let m = final(self).models@.last();
                        &&& m.id == id
                        &&& m.api_model_name == req.api_model_name
                        &&& m.display_name == req.display_name
                        &&& (if req.provider is Some {
                            m.provider == req.provider->0
                        } else {
                            m.provider@ == "openrouter"@
                        })
                        &&& m.is_active
                        &&& m.created_at == now
                        &&& m.system_prompt == req.system_prompt
                    })
                },
                Err(e) => e == RagError::Storage && has_model(old(self).models@, id@) && final(
                    self).models@ == old(self).models@,
            },
    {
        match self.find_model(id.as_str()) {
            Some(_) => Err(RagError::Storage),
            None => {
                let provider = match req.provider {
                    Some(p) => p,
                    None => "openrouter".to_owned(),
                };
                self.models.push(AIModel {
                    id,
                    api_model_name: req.api_model_name,
                    display_name: req.display_name,
                    provider,
                    is_active: true,
                    created_at: now,
                    system_prompt: req.system_prompt,
                });
                proof {
                    assert(final(self).models@.take(old(self).models@.len() as int) =~= old(
                        self,
                    ).models@);
                }
                Ok(())
            },
        }
    }

    /// Applies an update to the model with this id: named fields replace the
    /// stored ones, the rest stay. Fails with `NotFound`, changing nothing,
    /// exactly when no model has the id.
    pub fn update_model(&mut self, id: &str, req: &UpdateAIModelRequest) -> (r: Result<
        (),
        RagError,
    >)
        requires
            old(self).wf(),
        ensures
            final(self).wf(),
            r is Ok <==> has_model(old(self).models@, id@),
            match r {
                Ok(()) => {
                    &&& final(self).models@.len() == old(self).models@.len()
                    &&& forall|j: int|
                        0 <= j < old(self).models@.len() && (#[trigger] old(self).models@[j]).id@
                            != id@ ==> final(self).models@[j] == old(self).models@[j]
                    &&& forall|j: int|
                        0 <= j < old(self).models@.len() && (#[trigger] old(self).models@[j]).id@
                            == id@ ==> final(self).models@[j] == apply_update(
                            old(self).models@[j],
                            *req,
                        )
                },
                Err(e) => e == RagError::NotFound && final(self).models@ == old(self).models@,
            },
    {
        match self.find_model(id) {
            Some(i) => {
                let m = &self.models[i];
                let merged = AIModel {
                    id: m.id.clone(),
                    api_model_name: match &req.api_model_name {
                        Some(v) => v.clone(),
                        None => m.api_model_name.clone(),
                    },
                    display_name: match &req.display_name {
                        Some(v) => v.clone(),
                        None => m.display_name.clone(),
                    },
                    provider: match &req.provider {
                        Some(v) => v.clone(),
                        None => m.provider.clone(),
                    },
                    is_active: match req.is_active {
                        Some(v) => v,
                        None => m.is_active,
                    },
                    created_at: m.created_at,
                    system_prompt: clone_opt_string(&m.system_prompt),
                };
                self.models.set(i, merged);
                proof {
                    assert forall|j: int|
                        0 <= j < old(self).models@.len() && (#[trigger] old(self).models@[j]).id@
                            == id@ implies j == i as int by {
                        if j < i as int {
                            assert(old(self).models@[j].id@ != old(self).models@[i as int].id@);
                        } else if j > i as int {
                            assert(old(self).models@[i as int].id@ != old(self).models@[j].id@);
                        }
                    }
                }
                Ok(())
            },
            None => Err(RagError::NotFound),
        }
    }

    /// Removes the model with this id; removing an absent id is a no-op.
    pub fn delete_model(&mut self, id: &str)
        requires
            old(self).wf(),
        ensures
            final(self).wf(),
            final(self).models@ == old(self).models@.filter(|m: AIModel| m.id@ != id@),
    {
        let ghost pred = |m: AIModel| m.id@ != id@;
        match self.find_model(id) {
            Some(i) => {
                self.models.remove(i);
                proof {
                    assert forall|j: int|
                        0 <= j < old(self).models@.len() && j != i as int implies pred(
                        #[trigger] old(self).models@[j],
                    ) by {
                        if j < i as int {
                            assert(old(self).models@[j].id@ != old(self).models@[i as int].id@);
                        } else {
                            assert(old(self).models@[i as int].id@ != old(self).models@[j].id@);
                        }
                    }
                    lemma_remove_single_fail(old(self).models@, i as int, pred);
                    old(self).models@.remove_ensures(i as int);
                }
            },
            None => {
                proof {
                    assert forall|j: int| 0 <= j < old(self).models@.len() implies pred(
                        #[trigger] old(self).models@[j],
                    ) by {
                        if old(self).models@[j].id@ == id@ {
                            assert(has_model(old(self).models@, id@));
                        }
                    }
                    lemma_filter_all_pass(old(self).models@, pred);
                }
            },
        }
    }

    /// The active models, in creation order.
    pub fn list_active(&self) -> (r: Vec<AIModel>)
        ensures
            r@ == self.models@.filter(|m: AIModel| m.is_active),
    {
        let ghost pred = |m: AIModel| m.is_active;
        let n = self.models.len();
        let mut out: Vec<AIModel> = Vec::new();
        let mut i: usize = 0;
        proof {
            assert(self.models@.take(0) =~= Seq::<AIModel>::empty());
            reveal(Seq::filter);
        }
        while i < n
            invariant
                n == self.models@.len(),
                i <= n,
                out@ == self.models@.take(i as int).filter(pred),
                pred == (|m: AIModel| m.is_active),
            decreases n - i,
        {
            proof {
                self.models@.take(i as int).lemma_filter_push(self.models@[i as int], pred);
                assert(self.models@.take(i + 1) =~= self.models@.take(i as int).push(
                    self.models@[i as int],
                ));
            }
            if self.models[i].is_active {
                out.push(self.models[i].clone());
            }
            i = i + 1;
        }
        proof {
            assert(self.models@.take(n as int) =~= self.models@);
        }
        out
    }

    /// Every model, newest first.
    pub fn list_all(&self) -> (r: Vec<AIModel>)
        ensures
            r@.len() == self.models@.len(),
            forall|k: int|
                0 <= k < r@.len() ==> #[trigger] r@[k] == self.models@[self.models@.len() - 1 - k],
    {
        let n = self.models.len();
        let mut out: Vec<AIModel> = Vec::new();
        let mut k: usize = 0;
        while k < n
            invariant
                n == self.models@.len(),
                k <= n,
                out@.len() == k,
                forall|k2: int|
                    0 <= k2 < k ==> #[trigger] out@[k2] == self.models@[n - 1 - k2],
            decreases n - k,
        {
            out.push(self.models[n - 1 - k].clone());
            k = k + 1;
        }
        out
    }
}

} // verus!
