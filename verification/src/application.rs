//! What a run of the program does, and the font listings it prints.
use vstd::prelude::*;

use crate::config::options::{is_annotate_for, Annotate, Args, Command, RightsholderProtection};
use crate::text::{
    chars_before, contains, lemma_before_asymmetric, lemma_before_irreflexive,
    lemma_before_total, lemma_before_transitive, names_of, occurs_in, str_before,
};

verus! {

/// The font used where none is named, on the command line or in the
/// environment.
pub open spec fn default_font() -> Seq<char> {
    "Impact"@
}

/// The program.
pub struct App;

/// What a run of the program does.
#[derive(Debug)]
pub enum Task {
    /// Print the names of all system fonts.
    ListFonts,
    /// Print the names of the system fonts whose name holds this text,
    /// whatever its case.
    QueryFonts(String),
    /// Annotate a picture.
    Annotate(Annotate),
}

impl App {
    /// Decides what the program does for `args`: the subcommand where one is
    /// given, annotating the picture otherwise.
    pub fn run(&self, args: &Args) -> (r: Result<Task, RightsholderProtection>)
        requires
            args.command is None ==> (!args.rightholder_protection ==> args.image is Some),
        ensures
            match args.command {
                Some(c) => r matches Ok(t) && is_dispatched(c, t),
                None => match r {
                    Err(_) => args.rightholder_protection,
                    Ok(t) => !args.rightholder_protection && (t matches Task::Annotate(a)
                        && is_annotate_for(*args, a)),
                },
            },
    {
        if let Some(command) = &args.command {
            return Ok(dispatch(command));
        }
        match args.build_annotate_options() {
            Ok(options) => Ok(Task::Annotate(options)),
            Err(e) => Err(e),
        }
    }
}

/// `t` is the task that `command` asks for.
pub open spec fn is_dispatched(command: Command, t: Task) -> bool {
    match command {
        Command::Fonts { query: Some(q) } => t matches Task::QueryFonts(q2) && q2@ == q@,
        Command::Fonts { query: None } => t is ListFonts,
    }
}

/// The task that a subcommand asks for.
pub fn dispatch(command: &Command) -> (r: Task)
    ensures
        is_dispatched(*command, r),
{
    match command {
        Command::Fonts { query } => match query {
            Some(query) => Task::QueryFonts(query.clone()),
            None => Task::ListFonts,
        },
    }
}

/// The name of the font to load where none is named on the command line:
/// the value of the environment's default font variable where it is set,
/// "Impact" otherwise.
pub fn default_font_name(env_value: Option<&str>) -> (r: String)
    ensures
        r@ == match env_value {
            Some(v) => v@,
            None => default_font(),
        },
{
    match env_value {
        Some(v) => String::from_str(v),
        None => String::from_str("Impact"),
    }
}

/// Each name of `v` comes before the next: `v` is sorted and holds no name
/// twice.
pub open spec fn strictly_ascending(v: Seq<Seq<char>>) -> bool {
    forall|i: int, j: int| 0 <= i < j < v.len() ==> chars_before(#[trigger] v[i], #[trigger] v[j])
}

/// The upper case of `s`, as `str::to_uppercase` gives it.
pub uninterp spec fn uppercase(s: Seq<char>) -> Seq<char>;

/// Calls `str::to_uppercase`. Its result is named [`uppercase`]: the
/// Unicode upper case mapping, which depends on the string alone and maps
/// each character in turn, so that the empty string stays empty; nothing
/// more is claimed of it.
#[verifier::external_body]
fn to_uppercase(s: &str) -> (r: String)
    ensures
        r@ == uppercase(s@),
        s@.len() == 0 ==> r@.len() == 0,
{
    s.to_uppercase()
}

/// The font names that match `query`: those whose upper case holds the
/// upper case of `query`.
pub open spec fn matching_names(names: Set<Seq<char>>, query: Seq<char>) -> Set<Seq<char>> {
    names.filter(|n: Seq<char>| occurs_in(uppercase(n), uppercase(query)))
}

/// Puts `x` into the sorted names `v`, unless `v` holds it already.
fn insert_sorted(v: &mut Vec<String>, x: String)
    requires
        strictly_ascending(names_of(old(v)@)),
    ensures
        strictly_ascending(names_of(final(v)@)),
        forall|z: Seq<char>|
            names_of(final(v)@).contains(z) <==> (names_of(old(v)@).contains(z) || z == x@),
{
    let n = v.len();
    let ghost names = names_of(v@);
    let mut lo: usize = 0;
    let mut hi: usize = n;
    while lo < hi
        invariant
            n == v.len(),
            names == names_of(v@),
            strictly_ascending(names),
            lo <= hi <= n,
            forall|k: int| 0 <= k < lo ==> chars_before(#[trigger] v@[k]@, x@),
            forall|k: int| hi <= k < n ==> !chars_before(#[trigger] v@[k]@, x@),
        decreases hi - lo,
    {
        let mid = lo + (hi - lo) / 2;
        if str_before(v[mid].as_str(), x.as_str()) {
            proof {
                assert forall|k: int| 0 <= k <= mid implies chars_before(#[trigger] v@[k]@, x@) by {
                    if k < mid {
                        assert(chars_before(names[k], names[mid as int]));
                        lemma_before_transitive(names[k], names[mid as int], x@);
                    }
                }
            }
            lo = mid + 1;
        } else {
            proof {
                assert forall|k: int| mid <= k < n implies !chars_before(#[trigger] v@[k]@, x@) by {
                    if k > mid {
                        assert(chars_before(names[mid as int], names[k]));
                        lemma_before_transitive(names[mid as int], names[k], x@);
                    }
                }
            }
            hi = mid;
        }
    }
    let i = lo;
    let ghost old_names = names_of(v@);
    if i < n && v[i] == x {
        proof {
            assert(old_names[i as int] == x@);
        }
        return;
    }
    proof {
        if i < n {
            lemma_before_total(v@[i as int]@, x@);
            assert(chars_before(x@, v@[i as int]@));
            assert forall|k: int| i <= k < n implies chars_before(x@, #[trigger] old_names[k]) by {
                if k > i {
                    assert(chars_before(old_names[i as int], old_names[k]));
                    lemma_before_transitive(x@, old_names[i as int], old_names[k]);
                }
            }
        }
    }
    v.insert(i, x);
    proof {
        let new_names = names_of(v@);
        assert(new_names.len() == old_names.len() + 1);
        assert forall|k: int| 0 <= k < new_names.len() implies #[trigger] new_names[k] == (if k
            < i {
            old_names[k]
        } else if k == i {
            x@
        } else {
            old_names[k - 1]
        }) by {}
        assert forall|a: int, b: int| 0 <= a < b < new_names.len() implies chars_before(
            #[trigger] new_names[a],
            #[trigger] new_names[b],
        ) by {
            if a < i && b == i {
            } else if a < i && b > i {
                assert(chars_before(old_names[a], x@));
                assert(chars_before(x@, old_names[b - 1]));
                lemma_before_transitive(old_names[a], x@, old_names[b - 1]);
            } else if a == i {
                assert(chars_before(x@, old_names[b - 1]));
            } else if a < i {
                assert(chars_before(old_names[a], old_names[b]));
            } else {
                assert(chars_before(old_names[a - 1], old_names[b - 1]));
            }
        }
        assert forall|z: Seq<char>| new_names.contains(z) <==> (old_names.contains(z) || z
            == x@) by {
            if new_names.contains(z) {
                let k = choose|k: int| 0 <= k < new_names.len() && new_names[k] == z;
                if k < i {
                    assert(old_names[k] == z);
                } else if k > i {
                    assert(old_names[k - 1] == z);
                }
            }
            if old_names.contains(z) {
                let k = choose|k: int| 0 <= k < old_names.len() && old_names[k] == z;
                if k < i {
                    assert(new_names[k] == z);
                } else {
                    assert(new_names[k + 1] == z);
                }
            }
            if z == x@ {
                assert(new_names[i as int] == z);
            }
        }
    }
}

proof fn lemma_push_contains(s: Seq<Seq<char>>, x: Seq<char>)
    ensures
        forall|z: Seq<char>| #[trigger] s.push(x).contains(z) <==> (s.contains(z) || z == x),
{
    assert forall|z: Seq<char>| #[trigger] s.push(x).contains(z) <==> (s.contains(z) || z == x) by {
        if s.push(x).contains(z) {
            let k = choose|k: int| 0 <= k < s.push(x).len() && s.push(x)[k] == z;
            if k < s.len() {
                assert(s[k] == z);
            }
        }
        if s.contains(z) {
            let k = choose|k: int| 0 <= k < s.len() && s[k] == z;
            assert(s.push(x)[k] == z);
        }
        if z == x {
            assert(s.push(x)[s.len() as int] == z);
        }
    }
}

/// The font names to list: each of `names` once, in order.
pub fn list_fonts(names: &Vec<String>) -> (r: Vec<String>)
    ensures
        strictly_ascending(names_of(r@)),
        names_of(r@).to_set() == names_of(names@).to_set(),
{
    let mut listed: Vec<String> = Vec::new();
    let n = names.len();
    let mut i: usize = 0;
    while i < n
        invariant
            n == names.len(),
            i <= n,
            strictly_ascending(names_of(listed@)),
            forall|z: Seq<char>|
                names_of(listed@).contains(z) <==> names_of(names@).subrange(0, i as int).contains(
                    z,
                ),
        decreases n - i,
    {
        let name = names[i].clone();
        let ghost before = names_of(listed@);
        insert_sorted(&mut listed, name);
        proof {
            assert(names_of(names@).subrange(0, i + 1) =~= names_of(names@).subrange(
                0,
                i as int,
            ).push(names@[i as int]@));
            lemma_push_contains(names_of(names@).subrange(0, i as int), names@[i as int]@);
        }
        i = i + 1;
    }
    proof {
        assert(names_of(names@).subrange(0, n as int) =~= names_of(names@));
        assert(names_of(listed@).to_set() =~= names_of(names@).to_set());
    }
    listed
}

/// The font names to list for `query`: each of `names` whose upper case
/// holds the upper case of `query`, once, in order.
pub fn query_fonts(names: &Vec<String>, query: &str) -> (r: Vec<String>)
    ensures
        strictly_ascending(names_of(r@)),
        names_of(r@).to_set() == matching_names(names_of(names@).to_set(), query@),
        query@.len() == 0 ==> names_of(r@).to_set() == names_of(names@).to_set(),
{
    let upper_query = to_uppercase(query);
    let mut listed: Vec<String> = Vec::new();
    let n = names.len();
    let mut i: usize = 0;
    while i < n
        invariant
            n == names.len(),
            i <= n,
            upper_query@ == uppercase(query@),
            query@.len() == 0 ==> upper_query@.len() == 0,
            strictly_ascending(names_of(listed@)),
            forall|z: Seq<char>|
                names_of(listed@).contains(z) <==> (names_of(names@).subrange(
                    0,
                    i as int,
                ).contains(z) && occurs_in(uppercase(z), upper_query@)),
        decreases n - i,
    {
        let upper = to_uppercase(names[i].as_str());
        if contains(upper.as_str(), upper_query.as_str()) {
            insert_sorted(&mut listed, names[i].clone());
        }
        proof {
            assert(names_of(names@).subrange(0, i + 1) =~= names_of(names@).subrange(
                0,
                i as int,
            ).push(names@[i as int]@));
            lemma_push_contains(names_of(names@).subrange(0, i as int), names@[i as int]@);
        }
        i = i + 1;
    }
    proof {
        assert(names_of(names@).subrange(0, n as int) =~= names_of(names@));
        assert(names_of(listed@).to_set() =~= matching_names(names_of(names@).to_set(), query@));
        if query@.len() == 0 {
            assert forall|z: Seq<char>| occurs_in(uppercase(z), uppercase(query@)) by {
                assert(uppercase(z).subrange(0, 0 + uppercase(query@).len() as int) =~= uppercase(query@));
            }
            assert(names_of(listed@).to_set() =~= names_of(names@).to_set());
        }
    }
    listed
}

proof fn lemma_rest_of_ascending(a: Seq<Seq<char>>)
    requires
        strictly_ascending(a),
        a.len() > 0,
    ensures
        strictly_ascending(a.drop_first()),
        forall|z: Seq<char>|
            #[trigger] a.drop_first().contains(z) <==> (a.contains(z) && z != a[0]),
{
    let r = a.drop_first();
    assert forall|z: Seq<char>| #[trigger] r.contains(z) <==> (a.contains(z) && z != a[0]) by {
        if r.contains(z) {
            let k = choose|k: int| 0 <= k < r.len() && r[k] == z;
            assert(a[k + 1] == z);
            assert(chars_before(a[0], a[k + 1]));
            lemma_before_irreflexive(z);
        }
        if a.contains(z) && z != a[0] {
            let k = choose|k: int| 0 <= k < a.len() && a[k] == z;
            assert(r[k - 1] == z);
        }
    }
    assert forall|i: int, j: int| 0 <= i < j < r.len() implies chars_before(
        #[trigger] r[i],
        #[trigger] r[j],
    ) by {
        assert(chars_before(a[i + 1], a[j + 1]));
    }
}

/// A listing that is sorted and holds no name twice is fixed by the names it
/// holds: two such listings of the same names are the same. So the listing
/// of a listing is the listing itself.
pub proof fn law_listing_is_unique(a: Seq<Seq<char>>, b: Seq<Seq<char>>)
    requires
        strictly_ascending(a),
        strictly_ascending(b),
        a.to_set() == b.to_set(),
    ensures
        a == b,
    decreases a.len(),
{
    if a.len() == 0 {
        if b.len() > 0 {
            assert(b.to_set().contains(b[0]));
            assert(!a.to_set().contains(b[0]));
        }
        assert(a =~= b);
    } else {
        assert(a.to_set().contains(a[0]));
        assert(b.to_set().contains(a[0]));
        let j = choose|j: int| 0 <= j < b.len() && b[j] == a[0];
        assert(b.to_set().contains(b[0]));
        assert(a.to_set().contains(b[0]));
        let k = choose|k: int| 0 <= k < a.len() && a[k] == b[0];
        if j > 0 {
            assert(chars_before(b[0], b[j]));
            if k == 0 {
                lemma_before_irreflexive(b[0]);
            } else {
                assert(chars_before(a[0], a[k]));
                lemma_before_asymmetric(a[0], b[0]);
            }
        }
        assert(a[0] == b[0]);
        lemma_rest_of_ascending(a);
        lemma_rest_of_ascending(b);
        assert forall|z: Seq<char>| #[trigger] a.drop_first().to_set().contains(z) == b.drop_first().to_set().contains(z) by {
            assert(a.to_set().contains(z) == b.to_set().contains(z));
        }
        assert(a.drop_first().to_set() =~= b.drop_first().to_set());
        law_listing_is_unique(a.drop_first(), b.drop_first());
        assert(a =~= b) by {
            assert forall|i: int| 0 <= i < a.len() implies a[i] == b[i] by {
                if i > 0 {
                    assert(a[i] == a.drop_first()[i - 1]);
                    assert(b[i] == b.drop_first()[i - 1]);
                }
            }
        }
    }
}

/// A font query ignores case: two queries with the same upper case list the
/// same fonts, in the same order.
pub proof fn law_query_ignores_case(
    names: Set<Seq<char>>,
    q1: Seq<char>,
    q2: Seq<char>,
    listed1: Seq<Seq<char>>,
    listed2: Seq<Seq<char>>,
)
    requires
        uppercase(q1) == uppercase(q2),
        strictly_ascending(listed1),
        strictly_ascending(listed2),
        listed1.to_set() == matching_names(names, q1),
        listed2.to_set() == matching_names(names, q2),
    ensures
        listed1 == listed2,
{
    assert(matching_names(names, q1) =~= matching_names(names, q2));
    law_listing_is_unique(listed1, listed2);
}

} // verus!
