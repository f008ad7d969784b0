use vstd::prelude::*;

verus! {

/// The editor that is run where none is configured.
pub open spec fn default_editor() -> Seq<char> {
    "nvim"@
}

/// The editor command to run: the configured one where there is one, else the
/// default.
pub fn get_editor_command(configured: Option<String>) -> (r: String)
    ensures
        r@ == match configured {
            Some(e) => e@,
            None => default_editor(),
        },
{
    match configured {
        Some(e) => e,
        None => String::from_str("nvim"),
    }
}

} // verus!
