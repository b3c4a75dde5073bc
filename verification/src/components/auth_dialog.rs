//! The dialog that frames the sign-in and registration forms.
use vstd::prelude::*;
use vstd::string::*;

verus! {

/// How wide the dialog is.
#[derive(Debug, Clone, Copy, PartialEq, Eq, Structural)]
pub enum AuthDialogWidth {
    /// Narrow, for signing in.
    SignIn,
    /// Wide, for the registration form.
    Register,
}

impl AuthDialogWidth {
    /// The width class of the dialog.
    pub fn classes(self) -> (r: &'static str)
        ensures
            r@ == match self {
                AuthDialogWidth::SignIn => "max-w-md!"@,
                AuthDialogWidth::Register => "max-w-4xl!"@,
            },
    {
        match self {
            AuthDialogWidth::SignIn => "max-w-md!",
            AuthDialogWidth::Register => "max-w-4xl!",
        }
    }
}

} // verus!
