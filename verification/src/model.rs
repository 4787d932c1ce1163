//! Remote models and the parsing of the model-catalog reply.

use vstd::prelude::*;
use crate::ClientError;

verus! {

/// A remote model, named by its catalog identifier.
#[derive(Debug)]
pub struct Model {
    pub name: String,
}

impl View for Model {
    type V = Seq<char>;

    open spec fn view(&self) -> Seq<char> {
        self.name@
    }
}

impl Model {
    /// A model named by the given identifier.
    pub fn from(value: String) -> (m: Model)
        ensures
            m@ == value@,
    {
        Model { name: value }
    }
}

/// The set of model identifiers a catalog reply names, or absence when the
/// reply is not a JSON object of string entries.
pub uninterp spec fn model_keys_of(body: Seq<char>) -> Option<Set<Seq<char>>>;

/// Relies on serde_json::from_str with a string-to-string map: the reply must
/// be a JSON object whose values are strings; the returned names are its keys,
/// without duplicates and in no promised order. Which keys a given text holds
/// is a function of that text alone.
#[verifier::external_body]
fn parse_model_names(body: &str) -> (r: Option<Vec<String>>)
    ensures
        match r {
            Option::Some(names) => {
                &&& model_keys_of(body@) == Option::Some(
                    names@.map_values(|s: String| s@).to_set(),
                )
                &&& forall|i: int, j: int| 0 <= i < j < names@.len() ==> names@[i]@ != names@[j]@
            },
            Option::None => model_keys_of(body@) is None,
        },
{
    match serde_json::from_str::<std::collections::HashMap<String, String>>(body) {
        Ok(map) => Some(map.into_keys().collect()),
        Err(_) => None,
    }
}

/// The models a catalog reply lists: one per key of the reply object.
/// Fails with `Parse` exactly when the reply is not such an object.
pub fn models_from_body(body: &str) -> (r: Result<Vec<Model>, ClientError>)
    ensures
        match r {
            Result::Ok(models) => {
                &&& model_keys_of(body@) == Option::Some(
                    models@.map_values(|m: Model| m@).to_set(),
                )
                &&& forall|i: int, j: int|
                    0 <= i < j < models@.len() ==> models@[i]@ != models@[j]@
            },
            Result::Err(e) => e == ClientError::Parse && model_keys_of(body@) is None,
        },
{
    match parse_model_names(body) {
        Option::None => Err(ClientError::Parse),
        Option::Some(names) => {
            let mut models: Vec<Model> = Vec::new();
            let n = names.len();
            let mut i: usize = 0;
            while i < n
                invariant
                    i <= n,
                    n == names@.len(),
                    models@.len() == i,
                    models@.map_values(|m: Model| m@) == names@.subrange(
                        0,
                        i as int,
                    ).map_values(|s: String| s@),
                decreases n - i,
            {
                let ghost prev = models@;
                let name = names[i].clone();
                let ghost namev = name@;
                models.push(Model { name });
                proof {
                    let lhs = models@.map_values(|m: Model| m@);
                    let rhs = names@.subrange(0, i + 1).map_values(|s: String| s@);
                    let before = prev.map_values(|m: Model| m@);
                    assert(models@.len() == i + 1);
                    assert forall|k: int| 0 <= k < lhs.len() implies lhs[k] == rhs[k] by {
                        assert(lhs[k] == models@[k]@);
                        assert(rhs[k] == names@.subrange(0, i + 1)[k]@);
                        if k < i {
                            assert(models@[k] == prev[k]);
                            assert(before[k] == prev[k]@);
                            assert(before[k] == names@.subrange(0, i as int).map_values(
                                |s: String| s@,
                            )[k]);
                            assert(names@.subrange(0, i as int)[k] == names@[k]);
                        } else {
                            assert(models@[k]@ == namev);
                            assert(namev == names@[i as int]@);
                        }
                    }
                    assert(lhs =~= rhs);
                }
                i = i + 1;
            }
            proof {
                assert(names@.subrange(0, n as int) =~= names@);
                let mv = models@.map_values(|m: Model| m@);
                let nv = names@.map_values(|s: String| s@);
                assert(mv == nv);
                assert forall|i: int, j: int|
                    0 <= i < j < models@.len() implies models@[i]@ != models@[j]@ by {
                    assert(models@[i]@ == mv[i]);
                    assert(models@[j]@ == mv[j]);
                    assert(nv[i] == names@[i]@);
                    assert(nv[j] == names@[j]@);
                }
            }
            Ok(models)
        },
    }
}

} // verus!
