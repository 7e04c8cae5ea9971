//! Tool-specific settings kept as a list of optional text items: the first
//! holds the image-operations script, the second the requested help topic.

use vstd::prelude::*;

verus! {

/// A tool-specific setting.
#[derive(Debug, Clone)]
pub enum ConfigItem {
    OptionStringItem(Option<String>),
}

pub open spec fn item_text(c: ConfigItem) -> Option<Seq<char>> {
    match c {
        ConfigItem::OptionStringItem(Some(s)) => Some(s@),
        ConfigItem::OptionStringItem(None) => None,
    }
}

/// The text of an item, if it holds one.
pub fn get_config_item(c: &ConfigItem) -> (r: Option<&str>)
    ensures
        match r {
            Some(t) => item_text(*c) == Some(t@),
            None => item_text(*c) is None,
        },
{
    match c {
        ConfigItem::OptionStringItem(Some(opt)) => Some(opt.as_str()),
        ConfigItem::OptionStringItem(None) => None,
    }
}

/// The text of item `i`, if there is such an item and it holds one.
pub open spec fn item_at(items: Seq<ConfigItem>, i: int) -> Option<Seq<char>> {
    if 0 <= i < items.len() {
        item_text(items[i])
    } else {
        None
    }
}

/// The image-operations script: the first item.
pub fn script_arg(items: &Vec<ConfigItem>) -> (r: Option<&str>)
    ensures
        match r {
            Some(t) => item_at(items@, 0) == Some(t@),
            None => item_at(items@, 0) is None,
        },
{
    if items.len() > 0 {
        get_config_item(&items[0])
    } else {
        None
    }
}

/// The requested help topic: the second item.
pub fn manual_arg(items: &Vec<ConfigItem>) -> (r: Option<&str>)
    ensures
        match r {
            Some(t) => item_at(items@, 1) == Some(t@),
            None => item_at(items@, 1) is None,
        },
{
    if items.len() > 1 {
        get_config_item(&items[1])
    } else {
        None
    }
}

/// Where a converted image goes: to standard output as bytes, or to a file.
pub enum ExportMethod {
    StdoutBytes,
    File(String),
}

/// Where a converted image goes: to the output path when one is given,
/// otherwise to standard output.
pub fn determine_export_method(output_path: Option<&str>) -> (r: ExportMethod)
    ensures
        match output_path {
            None => r is StdoutBytes,
            Some(p) => r matches ExportMethod::File(f) && f@ == p@,
        },
{
    match output_path {
        None => ExportMethod::StdoutBytes,
        Some(p) => ExportMethod::File(String::from_str(p)),
    }
}

} // verus!
