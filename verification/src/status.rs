//! What the runtime's listing says of the services.
//!
//! The listing is text for people: a header line, then one line for each
//! container, with the container's name in the first column and its image
//! in the second, the columns separated by white space.

use crate::config::Service;
use crate::error::{ComposeError, Failure, RuntimeAction};
use crate::name_map::NameMap;
use crate::runtime::Invocation;
use crate::text::{
    column, column_of, first_word, same_text, split, split_text, texts, trim_text, trimmed,
};
use vstd::prelude::*;

verus! {

/// The lines of `listing` behind its header line.
pub open spec fn rows(listing: Seq<char>) -> Seq<Seq<char>> {
    split(listing, '\n').skip(1)
}

/// The test that picks the name out of a row where it is one of
/// `services`.
pub open spec fn service_in_row(services: Seq<Seq<char>>) -> spec_fn(Seq<char>) -> Option<
    Seq<char>,
> {
    |row: Seq<char>|
        if first_word(row).len() > 0 && services.contains(first_word(row)) {
            Some(first_word(row))
        } else {
            None
        }
}

/// The services among `services` that `listing` shows, in the order and as
/// often as it shows them.
pub open spec fn listed_services(listing: Seq<char>, services: Seq<Seq<char>>) -> Seq<Seq<char>> {
    rows(listing).filter_map(service_in_row(services))
}

/// Whether `row` describes the container `name`: it has two columns at
/// least, and the first is `name`.
pub open spec fn describes(row: Seq<char>, name: Seq<char>) -> bool {
    column(row, 1).len() > 0 && column(row, 0) == name
}

/// The first of `rows` that describes the container `name`.
pub open spec fn find_row(rows: Seq<Seq<char>>, name: Seq<char>) -> Option<Seq<char>>
    decreases rows.len(),
{
    if rows.len() == 0 {
        None
    } else if describes(rows[0], name) {
        Some(rows[0])
    } else {
        find_row(rows.skip(1), name)
    }
}

/// The image that the configuration has for `name`; `unknown` for a name
/// that is no service.
pub open spec fn configured_image(services: NameMap<Service>, name: Seq<char>) -> Seq<char> {
    match services.lookup(name) {
        Some(service) => service.image@,
        None => "unknown"@,
    }
}

/// The identifier and the image of the container `name`: from the first
/// row of the listing that describes it, and from the configuration where
/// the listing could not be had or has no such row. The listing is read
/// without the white space around it.
pub open spec fn details_of(answer: Invocation, services: NameMap<Service>, name: Seq<char>) -> (
    Seq<char>,
    Seq<char>,
) {
    let found = match answer {
        Invocation::Exited { code, stdout, stderr } => if code == Some(0i32) {
            find_row(rows(trimmed(stdout@)), name)
        } else {
            None
        },
        _ => None,
    };
    match found {
        Some(row) => (column(row, 0), column(row, 1)),
        None => (name, configured_image(services, name)),
    }
}

/// The failure to list the containers where the runtime could not be
/// started.
pub open spec fn listing_failure(answer: Invocation) -> Option<Failure> {
    match answer {
        Invocation::NotStarted { reason } => Some(
            Failure::RuntimeUnavailable { action: RuntimeAction::List, reason: reason@ },
        ),
        _ => None,
    }
}

/// The services that the answer to a listing shows: none where the
/// listing did not succeed.
pub open spec fn services_shown(answer: Invocation, services: Seq<Seq<char>>) -> Seq<Seq<char>> {
    match answer {
        Invocation::Exited { code, stdout, stderr } => if code == Some(0i32) {
            listed_services(stdout@, services)
        } else {
            Seq::empty()
        },
        _ => Seq::empty(),
    }
}

/// The failure to list the containers where the runtime could not be
/// started.
pub fn check_listing(answer: &Invocation) -> (r: Result<(), ComposeError>)
    ensures
        match r {
            Ok(_) => listing_failure(*answer) is None,
            Err(e) => listing_failure(*answer) == Some(e@),
        },
{
    match answer {
        Invocation::NotStarted { reason } => Err(
            ComposeError::RuntimeUnavailable { action: RuntimeAction::List, reason: reason.clone() },
        ),
        _ => Ok(()),
    }
}

/// The services among `services` that the lines of `listing` behind its
/// header show, in the order and as often as it shows them.
pub fn parse_listing(listing: &str, services: &NameMap<Service>) -> (found: Vec<String>)
    ensures
        texts(found@) == listed_services(listing@, services.names()),
{
    let lines = split_text(listing, '\n');
    let ghost all = split(listing@, '\n');
    let ghost pick = service_in_row(services.names());
    let mut found: Vec<String> = Vec::new();
    if lines.len() < 2 {
        assert(all.skip(1) =~= Seq::<Seq<char>>::empty());
        assert(texts(found@) =~= Seq::<Seq<char>>::empty());
        return found;
    }
    let mut i: usize = 1;
    proof {
        assert(rows(listing@).take(0) =~= Seq::<Seq<char>>::empty());
        assert(texts(found@) =~= Seq::<Seq<char>>::empty());
    }
    while i < lines.len()
        invariant
            1 <= i <= lines@.len(),
            texts(lines@) == all,
            all == split(listing@, '\n'),
            pick == service_in_row(services.names()),
            texts(found@) == rows(listing@).take(i - 1).filter_map(pick),
        decreases lines@.len() - i,
    {
        let name = column_of(lines[i].as_str(), 0);
        proof {
            let rest = rows(listing@);
            assert(rest[i - 1] == lines@[i as int]@);
            rest.lemma_filter_map_take_succ(pick, i - 1);
        }
        if name.as_str().unicode_len() > 0 && services.contains_key(name.as_str()) {
            proof {
                assert(texts(found@.push(name)) =~= texts(found@) + seq![name@]);
            }
            found.push(name);
        } else {
            proof {
                assert(texts(found@) + Seq::<Seq<char>>::empty() =~= texts(found@));
            }
        }
        i += 1;
    }
    proof {
        let rest = rows(listing@);
        assert(rest.take(rest.len() as int) =~= rest);
    }
    found
}

/// The services among `services` that the answer to a listing shows. A
/// listing that did not succeed shows none; a runtime that could not be
/// started is a failure.
pub fn service_containers(answer: &Invocation, services: &NameMap<Service>) -> (r: Result<
    Vec<String>,
    ComposeError,
>)
    ensures
        match r {
            Ok(found) => listing_failure(*answer) is None && texts(found@) == services_shown(
                *answer,
                services.names(),
            ),
            Err(e) => listing_failure(*answer) == Some(e@),
        },
{
    match check_listing(answer) {
        Ok(_) => {},
        Err(e) => {
            return Err(e);
        },
    }
    match answer {
        Invocation::Exited { code, stdout, stderr } => {
            if answer.is_success() {
                return Ok(parse_listing(stdout.as_str(), services));
            }
        },
        _ => {},
    }
    let none: Vec<String> = Vec::new();
    assert(texts(none@) =~= Seq::<Seq<char>>::empty());
    Ok(none)
}

/// The first line behind the header of `listing` that describes the
/// container `name`: its first two columns.
pub fn find_details(listing: &str, name: &str) -> (r: Option<(String, String)>)
    ensures
        match r {
            Some(pair) => find_row(rows(listing@), name@) matches Some(row) && pair.0@ == column(
                row,
                0,
            ) && pair.1@ == column(row, 1),
            None => find_row(rows(listing@), name@) is None,
        },
{
    let lines = split_text(listing, '\n');
    let ghost rest = rows(listing@);
    if lines.len() < 2 {
        assert(rest =~= Seq::<Seq<char>>::empty());
        return None;
    }
    let mut i: usize = 1;
    assert(rest.skip(0) =~= rest);
    while i < lines.len()
        invariant
            1 <= i <= lines@.len(),
            texts(lines@) == split(listing@, '\n'),
            rest == rows(listing@),
            find_row(rest, name@) == find_row(rest.skip(i - 1), name@),
        decreases lines@.len() - i,
    {
        let line = lines[i].as_str();
        let first = column_of(line, 0);
        let second = column_of(line, 1);
        proof {
            let here = rest.skip(i - 1);
            assert(here[0] == lines@[i as int]@);
            assert(here.skip(1) =~= rest.skip(i as int));
        }
        if second.as_str().unicode_len() > 0 && same_text(first.as_str(), name) {
            return Some((first, second));
        }
        i += 1;
    }
    None
}

/// The identifier and the image of the container `name`: from the answer
/// to a listing of all containers where it describes the container, and
/// from the configuration otherwise.
pub fn container_details(answer: &Invocation, services: &NameMap<Service>, name: &str) -> (r: (
    String,
    String,
))
    ensures
        (r.0@, r.1@) == details_of(*answer, *services, name@),
{
    match answer {
        Invocation::Exited { code, stdout, stderr } => {
            if answer.is_success() {
                let text = trim_text(stdout.as_str());
                match find_details(text.as_str(), name) {
                    Some(pair) => {
                        return pair;
                    },
                    None => {},
                }
            }
        },
        _ => {},
    }
    match services.get(name) {
        Some(service) => (name.to_owned(), service.image.clone()),
        None => (name.to_owned(), "unknown".to_owned()),
    }
}

} // verus!
