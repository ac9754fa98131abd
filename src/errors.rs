//! An application error with several kinds, and the work that produces it.

use vstd::prelude::*;

use crate::text::{decimal_spec, push_decimal};
use crate::uuid::ascii_bytes;

verus! {

#[verifier::external_type_specification]
#[verifier::external_body]
pub struct ExIoError(std::io::Error);

/// Different kinds of application errors.
pub enum ApplicationError {
    /// An error with a code.
    Code { full: usize, short: u16 },
    /// An unknown error.
    Unknown,
    /// An error with a message.
    Message(String),
    /// An error from an I/O operation.
    IOWrapper(std::io::Error),
}

/// The name of an error's kind.
pub open spec fn kind_name(e: &ApplicationError) -> Seq<char> {
    match e {
        ApplicationError::Code { .. } => seq!['C', 'o', 'd', 'e'],
        ApplicationError::Unknown => seq!['U', 'n', 'k', 'n', 'o', 'w', 'n'],
        ApplicationError::Message(_) => seq!['M', 'e', 's', 's', 'a', 'g', 'e'],
        ApplicationError::IOWrapper(_) => seq!['I', 'O', 'W', 'r', 'a', 'p', 'p', 'e', 'r'],
    }
}

/// The text that follows the number in the message of `do_work`.
pub open spec fn terrible_suffix() -> Seq<char> {
    " lead to a terrible error"@
}

/// Relies on std's `From<io::ErrorKind> for io::Error`: an I/O error of
/// kind `Other`.
#[verifier::external_body]
fn other_io_error() -> std::io::Error {
    std::io::Error::from(std::io::ErrorKind::Other)
}

impl ApplicationError {
    /// Writes the name of the error's kind to `to`, as ASCII bytes.
    pub fn print_kind(&self, to: &mut Vec<u8>) -> (r: Result<(), std::io::Error>)
        ensures
            final(to)@ == old(to)@ + ascii_bytes(kind_name(self)),
            r is Ok,
    {
        let kind: &str = match self {
            ApplicationError::Code { full: _, short: _ } => "Code",
            ApplicationError::Unknown => "Unknown",
            ApplicationError::Message(_) => "Message",
            ApplicationError::IOWrapper(_) => "IOWrapper",
        };
        proof {
            reveal_strlit("Code");
            reveal_strlit("Unknown");
            reveal_strlit("Message");
            reveal_strlit("IOWrapper");
        }
        assert(kind@ =~= kind_name(self));
        assert(kind.is_ascii());
        let bytes = kind.as_bytes();
        proof {
            vstd::string::is_ascii_spec_bytes(kind);
        }
        assert(bytes@ =~= ascii_bytes(kind_name(self)));
        let mut i: usize = 0;
        while i < bytes.len()
            invariant
                i <= bytes@.len(),
                to@ == old(to)@ + bytes@.take(i as int),
            decreases bytes@.len() - i,
        {
            to.push(bytes[i]);
            assert(bytes@.take(i + 1) =~= bytes@.take(i as int).push(bytes@[i as int]));
            i = i + 1;
        }
        assert(bytes@.take(bytes@.len() as int) =~= bytes@);
        Ok(())
    }
}

/// Performs some work chosen by `choice`; every choice fails. Below 100 with
/// an I/O error; from 100 on with the message "<choice> lead to a terrible
/// error".
pub fn do_work(choice: i32) -> (r: Result<(), ApplicationError>)
    ensures
        choice < 100 ==> r matches Err(ApplicationError::IOWrapper(_)),
        choice >= 100 ==> (r matches Err(ApplicationError::Message(m)) && m@ == decimal_spec(
            choice as nat,
        ) + terrible_suffix()),
{
    if choice < 100 {
        Err(ApplicationError::IOWrapper(other_io_error()))
    } else if choice == 42 {
        Err(ApplicationError::Code { full: choice as usize, short: (choice % 65535) as u16 })
    } else if choice > 42 {
        let mut message = String::new();
        push_decimal(&mut message, choice as u64);
        message.append(" lead to a terrible error");
        Err(ApplicationError::Message(message))
    } else {
        Err(ApplicationError::Unknown)
    }
}

} // verus!
