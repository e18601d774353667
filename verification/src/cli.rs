//! Command-line surface: the one flag the core cares about, and the
//! decision it drives. Argument parsing itself stays with the caller.

use vstd::prelude::*;
use crate::text::{is_blank_text, str_is_blank};

verus! {

/// The arguments the core reacts to: an optional capture-export file.
#[derive(Debug)]
pub struct CliArgs {
    pub export: Option<String>,
}

/// The export target: the named file, or none when the flag is absent or
/// names only whitespace.
pub fn export_filename(args: &CliArgs) -> (r: Option<String>)
    ensures
        args.export is None ==> r is None,
        args.export matches Some(s) ==> (if is_blank_text(s@) {
            r is None
        } else {
            r matches Some(f) && f@ == s@
        }),
{
    match &args.export {
        None => None,
        Some(s) => {
            if str_is_blank(s.as_str()) {
                None
            } else {
                Some(s.clone())
            }
        },
    }
}

} // verus!
