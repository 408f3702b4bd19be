//! Errors that MLX reports.

use vstd::prelude::*;
use vstd::string::*;

verus! {

/// An error that MLX reported, with the message that its error handler received.
#[derive(Debug)]
pub struct Error {
    message: String,
}

impl View for Error {
    type V = Seq<char>;

    closed spec fn view(&self) -> Seq<char> {
        self.message@
    }
}

impl Error {
    /// The error that carries this message.
    pub fn new(message: String) -> (error: Error)
        ensures
            error@ == message@,
    {
        Error { message }
    }

    /// The message, as MLX gave it.
    pub fn message(&self) -> (message: &str)
        ensures
            message@ == self@,
    {
        self.message.as_str()
    }

    /// What the error prints.
    pub open spec fn text(&self) -> Seq<char> {
        "MLX error: "@ + self@
    }

    /// The error as it is shown to people.
    pub fn describe(&self) -> (text: String)
        ensures
            text@ == self.text(),
    {
        let mut text = String::from_str("MLX error: ");
        text.append(self.message.as_str());
        text
    }
}

/// Turns the status that an MLX function returned into a result: zero is success, and any other
/// status comes with the message that the error handler received.
pub fn check(status: i32, message: String) -> (result: Result<(), Error>)
    ensures
        match result {
            Ok(_) => status == 0,
            Err(error) => status != 0 && error@ == message@,
        },
{
    if status == 0 {
        Ok(())
    } else {
        Err(Error::new(message))
    }
}

} // verus!
