//! The arguments of the memory tools.

use vstd::prelude::*;

use crate::json::{field, string_field, string_value, Json};
use crate::text::{lowercase, opt_text, same_text, str_texts};

verus! {

/// The arguments of a memory tool.
#[derive(Debug)]
pub struct MemoryArgs<'a> {
    pub category: &'a str,
    pub data: Option<&'a str>,
    pub tags: Vec<&'a str>,
    pub is_global: bool,
}

/// The view of [`MemoryArgs`].
pub struct MemoryArgsView {
    pub category: Seq<char>,
    pub data: Option<Seq<char>>,
    pub tags: Seq<Seq<char>>,
    pub is_global: bool,
}

impl<'a> View for MemoryArgs<'a> {
    type V = MemoryArgsView;

    open spec fn view(&self) -> MemoryArgsView {
        MemoryArgsView {
            category: self.category@,
            data: opt_text(self.data),
            tags: str_texts(self.tags@),
            is_global: self.is_global,
        }
    }
}

/// The complaint about a category that is missing, empty or no text.
pub const BAD_CATEGORY: &'static str = "Category must be a string";

/// The complaint about a scope that is neither a truth value nor a text.
pub const BAD_SCOPE: &'static str = "is_global must be a boolean or string 'true'/'false'";

/// The texts among the values.
pub open spec fn strings_in(values: Seq<Json>) -> Seq<Seq<char>>
    decreases values.len(),
{
    if values.len() == 0 {
        Seq::empty()
    } else {
        let before = strings_in(values.drop_last());
        match string_value(values.last()) {
            Some(s) => before.push(s),
            None => before,
        }
    }
}

/// The tags that the arguments name: the texts of a list, or a single text.
pub open spec fn tags_in(args: Json) -> Seq<Seq<char>> {
    match field(args, "tags"@) {
        Some(Json::Array(values)) => strings_in(values@),
        Some(Json::Text(s)) => seq![s@],
        _ => Seq::empty(),
    }
}

/// Whether the arguments ask for the global memories, where they say so in one of
/// the accepted forms. A text does if its lower-case form is `true`.
pub open spec fn scope_in(args: Json) -> Option<bool> {
    match field(args, "is_global"@) {
        Some(Json::Bool(b)) => Some(b),
        Some(Json::Text(s)) => Some(lowercase(s@) == "true"@),
        None => Some(false),
        _ => None,
    }
}

/// The arguments of a memory tool, or the complaint about them.
pub open spec fn parsed_args(args: Json) -> Result<MemoryArgsView, Seq<char>> {
    match string_field(args, "category"@) {
        None => Err(BAD_CATEGORY@),
        Some(category) => if category.len() == 0 {
            Err(BAD_CATEGORY@)
        } else {
            match scope_in(args) {
                None => Err(BAD_SCOPE@),
                Some(is_global) => Ok(
                    MemoryArgsView {
                        category,
                        data: string_field(args, "data"@),
                        tags: tags_in(args),
                        is_global,
                    },
                ),
            }
        },
    }
}

fn strings_of<'a>(values: &'a Vec<Json>) -> (v: Vec<&'a str>)
    ensures
        str_texts(v@) == strings_in(values@),
{
    let mut v: Vec<&'a str> = Vec::new();
    let mut i: usize = 0;
    while i < values.len()
        invariant
            i <= values@.len(),
            str_texts(v@) == strings_in(values@.take(i as int)),
        decreases values@.len() - i,
    {
        proof {
            assert(values@.take(i + 1).drop_last() =~= values@.take(i as int));
        }
        let ghost before = v@;
        match values[i].as_str() {
            Some(s) => {
                v.push(s);
                proof {
                    assert(str_texts(v@) =~= str_texts(before).push(s@));
                }
            },
            None => {},
        }
        i += 1;
    }
    proof {
        assert(values@.take(i as int) =~= values@);
    }
    v
}

impl<'a> MemoryArgs<'a> {
    /// Reads the arguments of a memory tool. The category is needed; the text, the
    /// tags and the scope, which is local unless said otherwise, are not.
    pub fn from_value(args: &'a Json) -> (r: Result<MemoryArgs<'a>, String>)
        ensures
            match r {
                Ok(a) => parsed_args(*args) == Ok::<MemoryArgsView, Seq<char>>(a@),
                Err(e) => parsed_args(*args) == Err::<MemoryArgsView, Seq<char>>(e@),
            },
    {
        let category: &'a str = match args.get_str("category") {
            Some(c) => c,
            None => {
                return Err(BAD_CATEGORY.to_string());
            },
        };
        if category.unicode_len() == 0 {
            return Err(BAD_CATEGORY.to_string());
        }
        let data = args.get_str("data");
        let mut tags: Vec<&'a str> = Vec::new();
        match args.get("tags") {
            Some(Json::Array(values)) => {
                tags = strings_of(values);
            },
            Some(Json::Text(s)) => {
                tags.push(s.as_str());
            },
            _ => {},
        }
        proof {
            assert(str_texts(tags@) =~= tags_in(*args));
        }
        let is_global: bool = match args.get("is_global") {
            Some(Json::Bool(b)) => *b,
            Some(Json::Text(s)) => same_text(s.as_str().to_lowercase().as_str(), "true"),
            None => false,
            _ => {
                return Err(BAD_SCOPE.to_string());
            },
        };
        Ok(MemoryArgs { category, data, tags, is_global })
    }
}

} // verus!
