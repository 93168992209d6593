use vstd::prelude::*;

use crate::error::{CharClassError, CharClassErrorModel};
use crate::exprs::{CharGroup, CharGroupModel, GroupItem, GroupName};
use crate::text::str_eq;
use crate::warning::DeprecationWarning;

verus! {

/// The named class that a name in a character set denotes, if any. Unicode property
/// names are not among them: this library does not know them.
pub open spec fn named_class(name: Seq<char>) -> Option<GroupName> {
    if name == "w"@ || name == "word"@ {
        Some(GroupName::Word)
    } else if name == "d"@ || name == "digit"@ {
        Some(GroupName::Digit)
    } else if name == "s"@ || name == "space"@ {
        Some(GroupName::Space)
    } else if name == "h"@ || name == "horiz_space"@ {
        Some(GroupName::HorizSpace)
    } else if name == "v"@ || name == "vert_space"@ {
        Some(GroupName::VertSpace)
    } else {
        None
    }
}

/// What a name (or a dot) inside a character set denotes, negated or not, with the
/// deprecation that it carries.
pub open spec fn group_from_name(name: Seq<char>, negative: bool) -> Result<
    (CharGroupModel, Option<DeprecationWarning>),
    CharClassErrorModel,
> {
    if name == "."@ {
        if negative {
            Err(CharClassErrorModel::Negative)
        } else {
            Ok((CharGroupModel::Dot, Some(DeprecationWarning::DotInSet)))
        }
    } else if name == "cp"@ || name == "codepoint"@ {
        if negative {
            Err(CharClassErrorModel::Negative)
        } else {
            Ok((CharGroupModel::CodePoint, None))
        }
    } else {
        match named_class(name) {
            Some(n) => Ok(
                (CharGroupModel::Items(seq![GroupItem::Named { name: n, negative }]), None),
            ),
            None => Err(CharClassErrorModel::UnknownNamedClass(name)),
        }
    }
}

/// The items of a character set that holds exactly the given characters.
pub open spec fn chars_items(s: Seq<char>) -> Seq<GroupItem>
    decreases s.len(),
{
    if s.len() == 0 {
        Seq::empty()
    } else {
        chars_items(s.drop_last()).push(char_item(s.last()))
    }
}

/// The item of one character.
pub open spec fn char_item(c: char) -> GroupItem {
    GroupItem::Char(c)
}

/// The items of a string in a character set are single characters.
pub proof fn lemma_chars_items_are_chars(s: Seq<char>)
    ensures
        chars_items(s).len() == s.len(),
        forall|i: int| 0 <= i < s.len() ==> #[trigger] chars_items(s)[i] == char_item(s[i]),
    decreases s.len(),
{
    if s.len() > 0 {
        let prefix = s.drop_last();
        assert(chars_items(s) == chars_items(prefix).push(char_item(s.last())));
        lemma_chars_items_are_chars(prefix);
        assert forall|i: int| 0 <= i < s.len() implies #[trigger] chars_items(s)[i] == char_item(s[i]) by {
            if i < s.len() - 1 {
                assert(chars_items(prefix)[i] == char_item(prefix[i]));
            }
        }
    }
}

/// Combining two character sets: two lists of items are concatenated; `.` and
/// `codepoint` cannot be combined with anything.
pub open spec fn group_add(a: CharGroupModel, b: CharGroupModel) -> Result<CharGroupModel, CharClassErrorModel> {
    match (a, b) {
        (CharGroupModel::Items(x), CharGroupModel::Items(y)) => Ok(CharGroupModel::Items(x + y)),
        _ => Err(CharClassErrorModel::Unallowed),
    }
}

impl CharGroup {
    /// The character range `first`-`last`; there is none unless `first < last`.
    pub fn try_from_range(first: char, last: char) -> (g: Option<CharGroup>)
        ensures
            first < last ==> g is Some && g->0@ == CharGroupModel::Items(
                seq![GroupItem::Range { first, last }],
            ),
            !(first < last) ==> g is None,
    {
        if first < last {
            let mut v: Vec<GroupItem> = Vec::new();
            v.push(GroupItem::Range { first, last });
            Some(CharGroup::Items(v))
        } else {
            None
        }
    }

    /// The set of the characters of a string.
    pub fn from_chars(chars: &str) -> (g: CharGroup)
        ensures
            g@ == CharGroupModel::Items(chars_items(chars@)),
    {
        let n = chars.unicode_len();
        let mut v: Vec<GroupItem> = Vec::new();
        let mut i: usize = 0;
        while i < n
            invariant
                n == chars@.len(),
                i <= n,
                v@ == chars_items(chars@.take(i as int)),
            decreases n - i,
        {
            v.push(GroupItem::Char(chars.get_char(i)));
            assert(chars@.take(i + 1).drop_last() == chars@.take(i as int));
            i = i + 1;
        }
        assert(chars@.take(n as int) == chars@);
        CharGroup::Items(v)
    }

    /// The set of one character.
    pub fn from_char(c: char) -> (g: CharGroup)
        ensures
            g@ == CharGroupModel::Items(seq![GroupItem::Char(c)]),
    {
        let mut v: Vec<GroupItem> = Vec::new();
        v.push(GroupItem::Char(c));
        CharGroup::Items(v)
    }

    /// The set that a name inside a character set denotes, as `group_from_name` says.
    pub fn try_from_group_name(name: &str, negative: bool) -> (res: Result<
        (CharGroup, Option<DeprecationWarning>),
        CharClassError,
    >)
        ensures
            match group_from_name(name@, negative) {
                Ok((g, w)) => res is Ok && res->Ok_0.0@ == g && res->Ok_0.1 == w,
                Err(e) => res is Err && res->Err_0@ == e,
            },
    {
        if str_eq(name, ".") {
            if negative {
                Err(CharClassError::Negative)
            } else {
                Ok((CharGroup::Dot, Some(DeprecationWarning::DotInSet)))
            }
        } else if str_eq(name, "cp") || str_eq(name, "codepoint") {
            if negative {
                Err(CharClassError::Negative)
            } else {
                Ok((CharGroup::CodePoint, None))
            }
        } else {
            let n = if str_eq(name, "w") || str_eq(name, "word") {
                Some(GroupName::Word)
            } else if str_eq(name, "d") || str_eq(name, "digit") {
                Some(GroupName::Digit)
            } else if str_eq(name, "s") || str_eq(name, "space") {
                Some(GroupName::Space)
            } else if str_eq(name, "h") || str_eq(name, "horiz_space") {
                Some(GroupName::HorizSpace)
            } else if str_eq(name, "v") || str_eq(name, "vert_space") {
                Some(GroupName::VertSpace)
            } else {
                None
            };
            match n {
                Some(n) => {
                    let mut v: Vec<GroupItem> = Vec::new();
                    v.push(GroupItem::Named { name: n, negative });
                    Ok((CharGroup::Items(v), None))
                },
                None => Err(CharClassError::UnknownNamedClass(name.to_owned())),
            }
        }
    }

    /// Adds the items of another set to this one, as `group_add` says; on an error this
    /// set is unchanged.
    pub fn add(&mut self, other: CharGroup) -> (res: Result<(), CharClassError>)
        ensures
            match group_add(old(self)@, other@) {
                Ok(g) => res is Ok && final(self)@ == g,
                Err(e) => res is Err && res->Err_0@ == e && final(self)@ == old(self)@,
            },
    {
        match self {
            CharGroup::Items(v) => match other {
                CharGroup::Items(w) => {
                    let mut w = w;
                    v.append(&mut w);
                    Ok(())
                },
                _ => Err(CharClassError::Unallowed),
            },
            _ => Err(CharClassError::Unallowed),
        }
    }
}

} // verus!
