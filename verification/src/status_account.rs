//! The account that a status display shows.

use vstd::prelude::*;

verus! {

#[derive(Clone, Debug)]
pub enum StatusAccountDisplay {
    ChatGpt {
        email: Option<String>,
        plan: Option<String>,
        account_display_name: Option<String>,
        account_group_names: Option<Vec<String>>,
    },
    ApiKey,
}

} // verus!
