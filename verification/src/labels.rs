//! Texts shown by the views: kernel status, execution prompts, tab
//! titles.

use vstd::prelude::*;
use crate::sidebar::{file_name, path_file_name};
use crate::text::{decimal, push_decimal, push_str};

verus! {

/// The kernel indicator of a notebook: its label, and whether the kernel
/// is busy (`None` when it is not ready).
pub struct KernelIndicator<'a> {
    pub label: &'a str,
    pub busy: Option<bool>,
}

/// `label ●` while busy, `label ○` while idle, the bare label otherwise.
pub open spec fn status_spec(label: Seq<char>, busy: Option<bool>) -> Seq<char> {
    match busy {
        Some(true) => label + " ●"@,
        Some(false) => label + " ○"@,
        None => label,
    }
}

/// The kernel status text.
pub fn status_text(label: &str, busy: Option<bool>) -> (res: String)
    ensures
        res@ == status_spec(label@, busy),
{
    let mut res = label.to_owned();
    match busy {
        Some(true) => push_str(&mut res, " ●"),
        Some(false) => push_str(&mut res, " ○"),
        None => {},
    }
    res
}

impl<'a> KernelIndicator<'a> {
    /// The indicator's status text.
    pub fn text(&self) -> (res: String)
        ensures
            res@ == status_spec(self.label@, self.busy),
    {
        status_text(self.label, self.busy)
    }
}

/// `In [*]:` while running, `In [n]:` once executed, `In [ ]:` before.
pub open spec fn prompt_spec(running: bool, count: Option<i32>) -> Seq<char> {
    if running {
        "In [*]:"@
    } else {
        match count {
            Some(n) => "In ["@ + decimal(n as int) + "]:"@,
            None => "In [ ]:"@,
        }
    }
}

/// The execution prompt beside a code cell or console entry.
pub fn prompt_label(running: bool, count: Option<i32>) -> (res: String)
    ensures
        res@ == prompt_spec(running, count),
{
    if running {
        "In [*]:".to_owned()
    } else {
        match count {
            Some(n) => {
                let mut res = "In [".to_owned();
                push_decimal(&mut res, n as i64);
                push_str(&mut res, "]:");
                res
            },
            None => "In [ ]:".to_owned(),
        }
    }
}

/// The title of a notebook tab: the file name (`Untitled.ipynb` before
/// the first save), marked `● ` while there are unsaved changes.
pub open spec fn tab_title_spec(path: Option<Seq<char>>, dirty: bool) -> Seq<char> {
    let name = match path {
        Some(p) => match path_file_name(p) {
            Some(n) => n,
            None => "Untitled.ipynb"@,
        },
        None => "Untitled.ipynb"@,
    };
    if dirty { "● "@ + name } else { name }
}

/// The title of a notebook tab.
pub fn tab_title(path: &Option<String>, dirty: bool) -> (res: String)
    ensures
        res@ == tab_title_spec(
            match path {
                Some(p) => Some(p@),
                None => None,
            },
            dirty,
        ),
{
    let name = match path {
        Some(p) => match file_name(p.as_str()) {
            Some(n) => n,
            None => "Untitled.ipynb".to_owned(),
        },
        None => "Untitled.ipynb".to_owned(),
    };
    if dirty {
        let mut res = "● ".to_owned();
        push_str(&mut res, name.as_str());
        res
    } else {
        name
    }
}

/// `<unsupported kind>`: the placeholder for an output without renderer.
pub fn unsupported_label(kind: &str) -> (res: String)
    ensures
        res@ == "<unsupported "@ + kind@ + ">"@,
{
    let mut res = "<unsupported ".to_owned();
    push_str(&mut res, kind);
    push_str(&mut res, ">");
    res
}


/// The file name offered to a notebook saved for the first time:
/// `Untitled.ipynb`, then `Untitled1.ipynb`, `Untitled2.ipynb`, ... where
/// the earlier names are taken.
pub open spec fn untitled_spec(n: u32) -> Seq<char> {
    if n == 0 {
        "Untitled.ipynb"@
    } else {
        "Untitled"@ + decimal(n as int) + ".ipynb"@
    }
}

/// The `n`-th candidate name for a new notebook's file.
pub fn untitled_name(n: u32) -> (res: String)
    ensures
        res@ == untitled_spec(n),
{
    if n == 0 {
        "Untitled.ipynb".to_owned()
    } else {
        let mut s = "Untitled".to_owned();
        push_decimal(&mut s, n as i64);
        push_str(&mut s, ".ipynb");
        s
    }
}

} // verus!
