//! Functions: named parameters over a captured body node.
//!
//! A function is defined once and built fresh on every call: the body node is
//! evaluated against the caller's pools with an argument frame mapping each
//! parameter name to the matching call argument.

use vstd::prelude::*;

use crate::defs::DefinitionMap;
use crate::error::ErrV;
use crate::error::MemlError;
use crate::node::Node;
use crate::node::NodeV;
use crate::object::function_call_v;
use crate::object::props_view;
use crate::object::Object;
use crate::object::ObjectV;
use crate::text::clone_strings;

verus! {

/// Ghost mirror of [`Function`].
pub struct FunctionV {
    pub arg_names: Seq<Seq<char>>,
    pub body: NodeV,
}

/// A function definition: parameter names and the captured body node.
#[derive(Debug)]
pub struct Function {
    /// The parameter names, in declaration order.
    pub arg_names: Vec<String>,
    /// The captured body node, evaluated afresh on every call.
    pub body: Node,
}

impl View for Function {
    type V = FunctionV;

    open spec fn view(&self) -> FunctionV {
        FunctionV { arg_names: self.arg_names.deep_view(), body: self.body@ }
    }
}

impl Clone for Function {
    /// A deep copy; the copy has the same view as the original.
    fn clone(&self) -> (r: Function)
        ensures
            r@ == self@,
    {
        Function { arg_names: clone_strings(&self.arg_names), body: self.body.clone() }
    }
}

impl Function {
    /// Calls the function: the argument count must equal the parameter count
    /// exactly, and the body is built fresh against the caller's pools with
    /// the parameters bound to the arguments. A standalone call carries no
    /// use-site name, so its arity error names nothing.
    #[verifier::loop_isolation(false)]
    pub fn call(
        &self,
        arguments: Vec<String>,
        locals: &DefinitionMap,
        external: &DefinitionMap,
        fuel: u64,
    ) -> (r: Result<Object, MemlError>)
        ensures
            match r {
                Ok(o) => function_call_v(
                    self@,
                    arguments.deep_view(),
                    locals@,
                    external@,
                    fuel as nat,
                ) == Ok::<_, ErrV>(o@),
                Err(e) => function_call_v(
                    self@,
                    arguments.deep_view(),
                    locals@,
                    external@,
                    fuel as nat,
                ) == Err::<ObjectV, _>(e@),
            },
    {
        if arguments.len() != self.arg_names.len() {
            let empty_name = String::new();
            proof {
                assert(empty_name@ =~= Seq::<char>::empty());
            }
            return Err(MemlError::ArityMismatch {
                name: empty_name,
                expected: self.arg_names.len(),
                got: arguments.len(),
            });
        }
        let mut callframe: Vec<(String, String)> = Vec::new();
        let mut k: usize = 0;
        while k < arguments.len()
            invariant
                k <= arguments@.len(),
                arguments@.len() == self.arg_names@.len(),
                callframe@.len() == k as int,
                forall|j: int|
                    0 <= j < k ==> (#[trigger] callframe@[j]).0@ == self.arg_names@[j]@
                        && callframe@[j].1@ == arguments@[j]@,
            decreases arguments@.len() - k,
        {
            let key = self.arg_names[k].clone();
            let val = arguments[k].clone();
            callframe.push((key, val));
            k = k + 1;
        }
        proof {
            let argsv = arguments.deep_view();
            assert forall|j: int| 0 <= j < argsv.len() implies argsv[j] == arguments@[j]@ by {
                assert(arguments.deep_view()[j] == arguments@[j]@);
            }
            assert(props_view(callframe) =~= Seq::new(
                argsv.len(),
                |j: int| (self@.arg_names[j], argsv[j]),
            ));
        }
        Object::construct(&self.body, locals, external, Some(&callframe), fuel)
    }
}

} // verus!
