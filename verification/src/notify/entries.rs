//! The named entries of a section, as far as they are switched on.

use crate::faults::{first_of, first_of_next, first_of_none};
use crate::sorted::StringMap;
use crate::text::{cat4, cat6, chars_of, texts};
use vstd::prelude::*;
use vstd::string::*;

verus! {

/// A character that an entry's name may be made of, so that the name can also be
/// part of an environment variable's.
pub open spec fn entry_char(c: char) -> bool {
    ||| 'a' <= c <= 'z'
    ||| '0' <= c <= '9'
    ||| c == '_'
}

/// Whether a text may name an entry.
pub open spec fn entry_name(s: Seq<char>) -> bool {
    s.len() > 0 && forall|i: int| 0 <= i < s.len() ==> entry_char(#[trigger] s[i])
}

fn valid_name(name: &str) -> (r: bool)
    ensures
        r == entry_name(name@),
{
    let cs = chars_of(name);
    let mut i: usize = 0;
    while i < cs.len()
        invariant
            i <= cs@.len(),
            cs@ == name@,
            forall|j: int| 0 <= j < i ==> entry_char(#[trigger] cs@[j]),
        decreases cs@.len() - i,
    {
        let c = cs[i];
        if !(('a' <= c && c <= 'z') || ('0' <= c && c <= '9') || c == '_') {
            assert(!entry_char(name@[i as int]));
            return false;
        }
        i += 1;
    }
    cs.len() > 0
}

/// Why a name cannot be switched on.
pub open spec fn name_fault(
    section: Seq<char>,
    setting: Seq<char>,
    entries: Set<Seq<char>>,
) -> spec_fn(Seq<char>) -> Option<Seq<char>> {
    |name: Seq<char>|
        if !entry_name(name) {
            Some(
                setting + ": invalid name `"@ + name
                    + "`; an entry is named with small letters, digits and `_`"@,
            )
        } else if !entries.contains(name) {
            Some(
                setting + " names `"@ + name + "`, but there is no ["@ + section + "."@ + name
                    + "]"@,
            )
        } else {
            None
        }
}

/// Why a section's entries cannot be switched on as the setting says.
pub open spec fn selection_fault(
    section: Seq<char>,
    setting: Seq<char>,
    backend: Seq<char>,
    entries: Set<Seq<char>>,
    names: Seq<Seq<char>>,
) -> Option<Seq<char>> {
    if names.len() == 0 {
        Some(
            setting + " is empty; name at least one entry of ["@ + section + "], or remove `"@
                + backend + "` from notify.enabled"@,
        )
    } else {
        first_of(names, name_fault(section, setting, entries))
    }
}

/// Checks that the entries that a setting names can be switched on: at least
/// one, each well named, each there.
pub fn resolve_named_entries<C>(
    section: &str,
    setting: &str,
    backend: &str,
    entries: &StringMap<C>,
    enabled: &Vec<String>,
) -> (r: Result<(), String>)
    ensures
        match r {
            Ok(_) => {
                &&& selection_fault(section@, setting@, backend@, entries@.dom(), texts(enabled@)) is None
                &&& forall|i: int|
                    0 <= i < enabled@.len() ==> entries@.dom().contains(
                        (#[trigger] texts(enabled@)[i]),
                    )
            },
            Err(e) => selection_fault(
                section@,
                setting@,
                backend@,
                entries@.dom(),
                texts(enabled@),
            ) == Some(e@),
        },
{
    if enabled.len() == 0 {
        return Err(
            cat6(
                setting,
                " is empty; name at least one entry of [",
                section,
                "], or remove `",
                backend,
                "` from notify.enabled",
            ),
        );
    }
    let ghost all = texts(enabled@);
    let mut i: usize = 0;
    assert(all.take(0) == Seq::<Seq<char>>::empty());
    while i < enabled.len()
        invariant
            i <= enabled@.len(),
            enabled@.len() > 0,
            all == texts(enabled@),
            first_of(all.take(i as int), name_fault(section@, setting@, entries@.dom())) is None,
        decreases enabled@.len() - i,
    {
        let name = enabled[i].as_str();
        proof {
            first_of_next(all, name_fault(section@, setting@, entries@.dom()), i as int);
        }
        if !valid_name(name) {
            return Err(
                cat4(
                    setting,
                    ": invalid name `",
                    name,
                    "`; an entry is named with small letters, digits and `_`",
                ),
            );
        }
        if !entries.contains_key(name) {
            return Err(
                crate::text::cat8(
                    setting,
                    " names `",
                    name,
                    "`, but there is no [",
                    section,
                    ".",
                    name,
                    "]",
                ),
            );
        }
        i += 1;
    }
    proof {
        assert(all.take(i as int) == all);
        let fault = name_fault(section@, setting@, entries@.dom());
        first_of_none(all, fault);
        assert forall|j: int| 0 <= j < all.len() implies entries@.dom().contains(
            #[trigger] all[j],
        ) by {
            assert(fault(all[j]) is None);
        }
    }
    Ok(())
}

/// An entry's name is made of small letters, digits and `_`, at least one of them.
pub proof fn an_entrys_name_is_plain(s: Seq<char>)
    ensures
        entry_name(s) <==> s.len() > 0 && forall|i: int|
            0 <= i < s.len() ==> ('a' <= #[trigger] s[i] <= 'z' || '0' <= s[i] <= '9' || s[i]
                == '_'),
{
    if entry_name(s) {
        assert forall|i: int| 0 <= i < s.len() implies ('a' <= #[trigger] s[i] <= 'z' || '0'
            <= s[i] <= '9' || s[i] == '_') by {
            assert(entry_char(s[i]));
        }
    }
    if forall|i: int|
        0 <= i < s.len() ==> ('a' <= #[trigger] s[i] <= 'z' || '0' <= s[i] <= '9' || s[i] == '_') {
        assert forall|i: int| 0 <= i < s.len() implies entry_char(#[trigger] s[i]) by {}
    }
}

/// Entries can be switched on exactly when at least one is named, each name is well
/// made, and each has an entry.
pub proof fn entries_are_switched_on_by_name(
    section: Seq<char>,
    setting: Seq<char>,
    backend: Seq<char>,
    entries: Set<Seq<char>>,
    names: Seq<Seq<char>>,
)
    ensures
        selection_fault(section, setting, backend, entries, names) is None <==> names.len() > 0
            && forall|i: int|
            0 <= i < names.len() ==> (entry_name(#[trigger] names[i]) && entries.contains(
                names[i],
            )),
        names.len() == 0 ==> selection_fault(section, setting, backend, entries, names) == Some(
            setting + " is empty; name at least one entry of ["@ + section + "], or remove `"@
                + backend + "` from notify.enabled"@,
        ),
{
    let fault = name_fault(section, setting, entries);
    first_of_none(names, fault);
    if selection_fault(section, setting, backend, entries, names) is None {
        assert forall|i: int| 0 <= i < names.len() implies (entry_name(#[trigger] names[i])
            && entries.contains(names[i])) by {
            assert(fault(names[i]) is None);
        }
    }
    if names.len() > 0 && forall|i: int|
        0 <= i < names.len() ==> (entry_name(#[trigger] names[i]) && entries.contains(names[i])) {
        assert forall|i: int| 0 <= i < names.len() implies fault(#[trigger] names[i]) is None by {
            assert(entry_name(names[i]));
        }
    }
}

/// What the first bad name is told.
pub proof fn the_first_bad_name_is_told_why(
    section: Seq<char>,
    setting: Seq<char>,
    backend: Seq<char>,
    entries: Set<Seq<char>>,
    names: Seq<Seq<char>>,
    i: int,
)
    requires
        0 <= i < names.len(),
        !(entry_name(names[i]) && entries.contains(names[i])),
        forall|j: int|
            0 <= j < i ==> entry_name(#[trigger] names[j]) && entries.contains(names[j]),
    ensures
        !entry_name(names[i]) ==> selection_fault(section, setting, backend, entries, names)
            == Some(
            setting + ": invalid name `"@ + names[i]
                + "`; an entry is named with small letters, digits and `_`"@,
        ),
        entry_name(names[i]) ==> selection_fault(section, setting, backend, entries, names) == Some(
            setting + " names `"@ + names[i] + "`, but there is no ["@ + section + "."@ + names[i]
                + "]"@,
        ),
{
    let fault = name_fault(section, setting, entries);
    assert forall|j: int| 0 <= j < i implies fault(#[trigger] names[j]) is None by {
        assert(entry_name(names[j]));
    }
    crate::faults::the_first_fault_decides(names, fault, i);
}

} // verus!
