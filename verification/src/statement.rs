//! The statements of an image pipeline: operations on the image, and
//! changes to the environment that later operations read (such as the
//! sampling filter of a resize).

use vstd::prelude::*;
use crate::operations::{Operation, OperationView};
use crate::numeric::{ascii_lower};

verus! {

/// The sampling filters a resize can use.
#[derive(Debug, Clone, Copy, PartialEq, Eq, Structural)]
pub enum FilterType {
    CatmullRom,
    Gaussian,
    Lanczos3,
    Nearest,
    Triangle,
}

/// The filter whose name is `name`, letters compared without regard to
/// (ASCII) case.
pub open spec fn filter_of_name(name: Seq<char>) -> Option<FilterType> {
    let l = ascii_lower(name);
    if l == "catmullrom"@ {
        Some(FilterType::CatmullRom)
    } else if l == "gaussian"@ {
        Some(FilterType::Gaussian)
    } else if l == "lanczos3"@ {
        Some(FilterType::Lanczos3)
    } else if l == "nearest"@ {
        Some(FilterType::Nearest)
    } else if l == "triangle"@ {
        Some(FilterType::Triangle)
    } else {
        None
    }
}

/// The name a filter is written by: its own name in lower case.
pub open spec fn filter_name(f: FilterType) -> Seq<char> {
    match f {
        FilterType::CatmullRom => seq!['c', 'a', 't', 'm', 'u', 'l', 'l', 'r', 'o', 'm'],
        FilterType::Gaussian => seq!['g', 'a', 'u', 's', 's', 'i', 'a', 'n'],
        FilterType::Lanczos3 => seq!['l', 'a', 'n', 'c', 'z', 'o', 's', '3'],
        FilterType::Nearest => seq!['n', 'e', 'a', 'r', 'e', 's', 't'],
        FilterType::Triangle => seq!['t', 'r', 'i', 'a', 'n', 'g', 'l', 'e'],
    }
}

/// Each filter is found by its name, also written in any (ASCII) case; a
/// name finds only the filter it names, so different filters have different
/// names.
pub proof fn lemma_filter_name_round_trip(f: FilterType, w: Seq<char>)
    ensures
        filter_of_name(filter_name(f)) == Some(f),
        ascii_lower(w) == filter_name(f) ==> filter_of_name(w) == Some(f),
        filter_of_name(w) == Some(f) ==> ascii_lower(w) == filter_name(f),
{
    reveal_strlit("catmullrom");
    reveal_strlit("gaussian");
    reveal_strlit("lanczos3");
    reveal_strlit("nearest");
    reveal_strlit("triangle");
    let n = filter_name(f);
    assert(ascii_lower(n) =~= n);
    assert("catmullrom"@ =~= filter_name(FilterType::CatmullRom));
    assert("gaussian"@ =~= filter_name(FilterType::Gaussian));
    assert("lanczos3"@ =~= filter_name(FilterType::Lanczos3));
    assert("nearest"@ =~= filter_name(FilterType::Nearest));
    assert("triangle"@ =~= filter_name(FilterType::Triangle));
}

/// A setting of the environment.
#[derive(Debug, Clone, Copy, PartialEq, Eq, Structural)]
pub enum EnvironmentItem {
    PreserveAspectRatio,
    OptResizeSamplingFilter(FilterType),
}

/// The kind of a setting, by which it is removed again.
#[derive(Debug, Clone, Copy, PartialEq, Eq, Structural)]
pub enum EnvironmentKind {
    OptResizePreserveAspectRatio,
    OptResizeSamplingFilter,
}

/// A statement of an image pipeline.
pub enum Statement {
    Operation(Operation),
    RegisterEnvironmentItem(EnvironmentItem),
    DeregisterEnvironmentItem(EnvironmentKind),
}

/// A [`Statement`] as a mathematical value.
pub enum StatementView {
    Operation(OperationView),
    RegisterEnvironmentItem(EnvironmentItem),
    DeregisterEnvironmentItem(EnvironmentKind),
}

impl View for Statement {
    type V = StatementView;

    open spec fn view(&self) -> StatementView {
        match self {
            Statement::Operation(o) => StatementView::Operation(o@),
            Statement::RegisterEnvironmentItem(i) => StatementView::RegisterEnvironmentItem(*i),
            Statement::DeregisterEnvironmentItem(k) => StatementView::DeregisterEnvironmentItem(
                *k,
            ),
        }
    }
}

pub open spec fn statements_view(ss: Seq<Statement>) -> Seq<StatementView> {
    ss.map_values(|s: Statement| s@)
}

} // verus!
