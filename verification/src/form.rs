//! The form that carries a request.

use vstd::prelude::*;

verus! {

/// The form that is sent for a request: the one that was built from it, or the
/// empty form where none could be built.
pub fn get_form_data<Form, E>(built: Result<Form, E>, empty: Form) -> (r: Form)
    ensures
        r == (match built {
            Ok(form) => form,
            Err(_) => empty,
        }),
{
    match built {
        Ok(form) => form,
        Err(_) => empty,
    }
}

/// A form that was built is sent as it is, and the empty form stands only for one
/// that was not.
pub proof fn lemma_form_data<Form, E>(built: Result<Form, E>, empty: Form, r: Form)
    requires
        call_ensures(get_form_data::<Form, E>, (built, empty), r),
    ensures
        built matches Ok(form) ==> r == form,
        built is Err ==> r == empty,
{
}

} // verus!
