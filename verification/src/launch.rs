//! Which program to run.

use vstd::prelude::*;

verus! {

/// The places where the program may be installed, the likeliest first.
pub open spec fn install_places(home: Seq<char>, name: Seq<char>) -> Seq<Seq<char>> {
    seq![
        home + "/.local/bin/"@ + name,
        "/usr/local/bin/"@ + name,
        "/usr/bin/"@ + name,
        home + "/.npm-global/bin/"@ + name,
    ]
}

/// The places where the program may be installed, the likeliest first.
pub fn claude_candidates(home: &str, name: &str) -> (places: Vec<String>)
    ensures
        places.deep_view() == install_places(home@, name@),
{
    let mut local = home.to_owned();
    local.append("/.local/bin/");
    local.append(name);
    let mut shared = "/usr/local/bin/".to_owned();
    shared.append(name);
    let mut system = "/usr/bin/".to_owned();
    system.append(name);
    let mut global = home.to_owned();
    global.append("/.npm-global/bin/");
    global.append(name);
    let mut places: Vec<String> = Vec::new();
    places.push(local);
    places.push(shared);
    places.push(system);
    places.push(global);
    proof {
        assert(places.deep_view() =~= install_places(home@, name@));
    }
    places
}

/// The first of the places, from `from` on, that is there.
pub open spec fn first_present(
    places: Seq<Seq<char>>,
    present: Seq<bool>,
    from: int,
) -> Option<Seq<char>>
    decreases places.len() - from,
{
    if from >= places.len() {
        None
    } else if from < present.len() && present[from] {
        Some(places[from])
    } else {
        first_present(places, present, from + 1)
    }
}

/// The program to run: the one that was asked for, or else the first that is there, or else
/// whatever goes by its name on the search path.
pub open spec fn program(
    asked: Option<Seq<char>>,
    home: Seq<char>,
    name: Seq<char>,
    present: Seq<bool>,
) -> Seq<char> {
    match asked {
        Some(path) if path.len() > 0 => path,
        _ => match first_present(install_places(home, name), present, 0) {
            Some(path) => path,
            None => name,
        },
    }
}

/// The program to run, given what was asked for, the home folder, the program's name, and for each
/// candidate whether it is there.
pub fn resolve_claude(
    asked: Option<&str>,
    home: &str,
    name: &str,
    present: &Vec<bool>,
) -> (path: String)
    ensures
        path@ == program(asked.deep_view(), home@, name@, present@),
{
    if let Some(path) = asked {
        if !path.is_empty() {
            return path.to_owned();
        }
    }
    let places = claude_candidates(home, name);
    for i in 0..places.len()
        invariant
            places.deep_view() == install_places(home@, name@),
            first_present(install_places(home@, name@), present@, 0) == first_present(
                install_places(home@, name@),
                present@,
                i as int,
            ),
            asked.deep_view() matches Some(path) ==> path.len() == 0,
    {
        if i < present.len() && present[i] {
            proof {
                assert(places.deep_view()[i as int] == places@[i as int]@);
            }
            return places[i].clone();
        }
    }
    name.to_owned()
}

} // verus!
