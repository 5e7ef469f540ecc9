//! What a system notification needs before it is sent.
use vstd::prelude::*;
use vstd::string::*;
use crate::text::{result_view, str_chars, trim, trim_chars};

verus! {

/// A notification needs a title that is not blank.
pub fn check_title(title: &str) -> (r: Result<(), String>)
    ensures
        trim(title@).len() == 0 ==> result_view(r) == Err::<(), Seq<char>>("通知标题不能为空"@),
        trim(title@).len() != 0 ==> r is Ok,
{
    let t = trim_chars(&str_chars(title));
    if t.len() == 0 {
        Err(String::from_str("通知标题不能为空"))
    } else {
        Ok(())
    }
}

} // verus!
