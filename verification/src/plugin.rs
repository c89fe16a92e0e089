use vstd::prelude::*;

verus! {

/// Permission to open the CalabazaTales menus.
pub const PERMISSION_TALES: &'static str = "CalabazaTales:command.tales";

/// Permission to reload and validate the CalabazaTales configuration.
pub const PERMISSION_ADMIN: &'static str = "CalabazaTales:command.admin";

} // verus!
