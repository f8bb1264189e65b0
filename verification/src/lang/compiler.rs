//! What is reported of the statements that were seen.

use vstd::prelude::*;
use vstd::string::StringExecFns;
use crate::lang::ast::AssignmentExpr;

verus! {

/// The text `label` followed by `name`.
fn labelled(label: &str, name: &str) -> (s: String)
    ensures
        s@ == label@ + name@,
{
    String::from_str(label).concat(name)
}

/// The text `label` followed by `name`, ` => ` and `value`.
fn labelled_pair(label: &str, name: &str, value: &str) -> (s: String)
    ensures
        s@ == label@ + name@ + " => "@ + value@,
{
    String::from_str(label).concat(name).concat(" => ").concat(value)
}

/// The report of the rule `name`.
pub fn rule_report(name: &str) -> (s: String)
    ensures
        s@ == "saw rule name: "@ + name@,
{
    labelled("saw rule name: ", name)
}

/// The report of a local variable `name` that is given `value`.
pub fn local_assignment_report(name: &str, value: &str) -> (s: String)
    ensures
        s@ == "saw local assignment: "@ + name@ + " => "@ + value@,
{
    labelled_pair("saw local assignment: ", name, value)
}

/// The report of a local variable `name` that is given no value.
pub fn local_declaration_report(name: &str) -> (s: String)
    ensures
        s@ == "saw local declaration: "@ + name@,
{
    labelled("saw local declaration: ", name)
}

/// What is reported of the assignment `ao`.
pub open spec fn spec_assignment_report(ao: AssignmentExpr) -> Seq<char> {
    match ao.value {
        Some(val) => if ao.local {
            "saw local assignment: "@ + ao.name@ + " => "@ + val@
        } else {
            "saw global assignment: "@ + ao.name@ + " => "@ + val@
        },
        None => if ao.local {
            "saw local declaration: "@ + ao.name@
        } else {
            "saw global declaration: "@ + ao.name@
        },
    }
}

/// The report of the assignment `ao`: whether the variable is local or
/// global, whether it is assigned or only declared, its name and its value.
pub fn assignment_report(ao: &AssignmentExpr) -> (s: String)
    ensures
        s@ == spec_assignment_report(*ao),
{
    match &ao.value {
        Some(val) => {
            if ao.local {
                labelled_pair("saw local assignment: ", ao.name.as_str(), val.as_str())
            } else {
                labelled_pair("saw global assignment: ", ao.name.as_str(), val.as_str())
            }
        },
        None => {
            if ao.local {
                labelled("saw local declaration: ", ao.name.as_str())
            } else {
                labelled("saw global declaration: ", ao.name.as_str())
            }
        },
    }
}

} // verus!
