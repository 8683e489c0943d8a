use vstd::prelude::*;
use crate::errors::{LangError, RuntimeErrorKind};
use crate::lang_value::LangValue;

verus! {

broadcast use vstd::std_specs::vec::axiom_spec_len;

/// A function given by the host program, which takes a fixed number of values of the language
/// and gives a value back, or nothing where an argument has the wrong type.
pub struct ExternalFunctionRunner<F> {
    pub args_count: usize,
    pub func: F,
}

impl<F: Fn(Vec<LangValue>) -> Option<LangValue>> ExternalFunctionRunner<F> {
    /// A function of `args_count` arguments.
    pub fn new(args_count: usize, func: F) -> (r: ExternalFunctionRunner<F>)
        ensures
            r.args_count == args_count,
            r.func == func,
    {
        ExternalFunctionRunner { args_count, func }
    }

    /// Runs the function on `args`: wrong arguments are reported as errors.
    pub fn run(&self, args: Vec<LangValue>) -> (r: Result<LangValue, LangError>)
        requires
            args@.len() == self.args_count ==> call_requires(self.func, (args,)),
        ensures
            args@.len() != self.args_count ==> r == Err::<LangValue, LangError>(
                LangError::Runtime { kind: RuntimeErrorKind::ExtFuncParamCount(self.args_count, args@.len() as usize) }),
            args@.len() == self.args_count ==> match r {
                Ok(v) => call_ensures(self.func, (args,), Some(v)),
                Err(e) => call_ensures(self.func, (args,), None::<LangValue>)
                    && e == LangError::Runtime { kind: RuntimeErrorKind::ExtFuncParamType },
            },
    {
        if args.len() != self.args_count {
            return Err(LangError::runtime(RuntimeErrorKind::ExtFuncParamCount(self.args_count, args.len())));
        }

        match (self.func)(args) {
            Some(val) => Ok(val),
            None => Err(LangError::runtime(RuntimeErrorKind::ExtFuncParamType)),
        }
    }
}

} // verus!
