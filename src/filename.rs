//! Guessing what a video shows from its file name: `Show.Name.S01E02.mkv`
//! for an episode, `Movie.Name.1999.mkv` for a movie.

use vstd::prelude::*;
use crate::video::{ErrorKind, Video};

verus! {

/// A file name of an episode: directory, dotted title, season and episode
/// numbers, extension.
pub const TV_PATTERN: &'static str = r".*[/](.*)[.][sS](\d+)[eE](\d+)[.]?.*[.](.*)";

/// A file name of a movie: directory, dotted title, year, extension.
pub const MOVIE_PATTERN: &'static str = r".*[/](.*)[.](\d{4})[.]?.*[.](.*)";

/// The capture groups of the first match of `pattern` in `text` (group 0
/// being the whole match), or `None` where nothing matches or the pattern is
/// invalid.
pub uninterp spec fn regex_groups(pattern: Seq<char>, text: Seq<char>) -> Option<
    Seq<Option<Seq<char>>>,
>;

pub open spec fn groups_view(g: Option<Vec<Option<String>>>) -> Option<Seq<Option<Seq<char>>>> {
    match g {
        Some(v) => Some(v@.map_values(|o: Option<String>| crate::store::opt_view(o))),
        None => None,
    }
}

/// Relies on `regex::Regex::new` and `regex::Regex::captures`: compiles the
/// pattern and lists the groups of its first match, each present or not.
#[verifier::external_body]
fn regex_captures(pattern: &str, text: &str) -> (r: Option<Vec<Option<String>>>)
    ensures
        groups_view(r) == regex_groups(pattern@, text@),
{
    match regex::Regex::new(pattern) {
        Ok(re) => match re.captures(text) {
            Some(c) => Some(c.iter().map(|m| m.map(|m| m.as_str().to_string())).collect()),
            None => None,
        },
        Err(_) => None,
    }
}

pub open spec fn is_digit(c: char) -> bool {
    '0' <= c && c <= '9'
}

/// The value of a run of decimal digits.
pub open spec fn decimal(s: Seq<char>) -> int
    decreases s.len(),
{
    if s.len() == 0 {
        0
    } else {
        10 * decimal(s.drop_last()) + (s.last() as int - '0' as int)
    }
}

/// `s` is a non-empty run of decimal digits whose value fits in a `u64`.
pub open spec fn is_u64_text(s: Seq<char>) -> bool {
    &&& s.len() > 0
    &&& forall|i: int| 0 <= i < s.len() ==> is_digit(#[trigger] s[i])
    &&& decimal(s) <= u64::MAX
}

/// `s` with every dot replaced by a space.
pub open spec fn dots_to_spaces(s: Seq<char>) -> Seq<char> {
    s.map_values(|c: char| if c == '.' { ' ' } else { c })
}

/// The group `i`, where present.
pub open spec fn group(g: Seq<Option<Seq<char>>>, i: int) -> Option<Seq<char>> {
    if 0 <= i < g.len() {
        g[i]
    } else {
        None
    }
}

/// The episode that capture groups of the episode pattern name: its title,
/// season and episode numbers.
pub open spec fn tv_of_groups(g: Option<Seq<Option<Seq<char>>>>) -> Option<(Seq<char>, int, int)> {
    match g {
        None => None,
        Some(g) => match (group(g, 1), group(g, 2), group(g, 3)) {
            (Some(t), Some(s), Some(e)) => if is_u64_text(s) && is_u64_text(e) {
                Some((dots_to_spaces(t), decimal(s), decimal(e)))
            } else {
                None
            },
            _ => None,
        },
    }
}

/// The movie that capture groups of the movie pattern name: its title and
/// year.
pub open spec fn movie_of_groups(g: Option<Seq<Option<Seq<char>>>>) -> Option<(Seq<char>, int)> {
    match g {
        None => None,
        Some(g) => match (group(g, 1), group(g, 2)) {
            (Some(t), Some(y)) => if is_u64_text(y) {
                Some((dots_to_spaces(t), decimal(y)))
            } else {
                None
            },
            _ => None,
        },
    }
}

/// Reads a run of decimal digits; `None` for anything else or a value beyond
/// `u64`.
pub fn parse_u64(s: &String) -> (r: Option<u64>)
    ensures
        r is Some <==> is_u64_text(s@),
        r matches Some(v) ==> v as int == decimal(s@),
{
    let n = s.as_str().unicode_len();
    if n == 0 {
        return None;
    }
    let mut v: u64 = 0;
    let mut i: usize = 0;
    assert(s@.subrange(0, 0) =~= Seq::<char>::empty());
    while i < n
        invariant
            n == s@.len(),
            i <= n,
            forall|k: int| 0 <= k < i ==> is_digit(#[trigger] s@[k]),
            v as int == decimal(s@.subrange(0, i as int)),
        decreases n - i,
    {
        let c = s.as_str().get_char(i);
        assert(s@.subrange(0, i + 1).drop_last() =~= s@.subrange(0, i as int));
        assert(s@.subrange(0, i + 1).last() == c);
        if !('0' <= c && c <= '9') {
            return None;
        }
        let d = (c as u32 - '0' as u32) as u64;
        if v > (u64::MAX - d) / 10 {
            proof {
                assert(decimal(s@.subrange(0, i + 1)) == 10 * v + d);
                assert(10 * v + d > u64::MAX) by (nonlinear_arith)
                    requires
                        v > (u64::MAX - d) / 10,
                        d <= 9,
                ;
                if forall|k: int| 0 <= k < s@.len() ==> is_digit(#[trigger] s@[k]) {
                    lemma_decimal_mono(s@, i as int + 1);
                }
            }
            return None;
        }
        assert(10 * v + d <= u64::MAX) by (nonlinear_arith)
            requires
                v <= (u64::MAX - d) / 10,
                d <= 9,
        ;
        v = v * 10 + d;
        i = i + 1;
    }
    assert(s@.subrange(0, n as int) =~= s@);
    Some(v)
}

/// A prefix of a run of digits never has a larger value than the run.
pub proof fn lemma_decimal_mono(s: Seq<char>, k: int)
    requires
        0 <= k <= s.len(),
        forall|i: int| 0 <= i < s.len() ==> is_digit(#[trigger] s[i]),
    ensures
        0 <= decimal(s.subrange(0, k)) <= decimal(s),
    decreases s.len(),
{
    if s.len() == 0 {
        assert(s.subrange(0, k) =~= s);
    } else {
        let t = s.drop_last();
        assert(is_digit(s[s.len() - 1]));
        if k == s.len() {
            lemma_decimal_mono(t, 0);
            assert(s.subrange(0, k) =~= s);
        } else {
            lemma_decimal_mono(t, k);
            assert(t.subrange(0, k) =~= s.subrange(0, k));
        }
    }
}

/// Replaces every dot by a space.
pub fn dots_to_spaces_string(s: &String) -> (r: String)
    ensures
        r@ == dots_to_spaces(s@),
{
    let n = s.as_str().unicode_len();
    let mut out = String::new();
    let mut start: usize = 0;
    let mut i: usize = 0;
    assert(s@.subrange(0, 0) =~= Seq::<char>::empty());
    assert(out@ =~= dots_to_spaces(s@.subrange(0, 0)));
    while i < n
        invariant
            n == s@.len(),
            start <= i <= n,
            out@ == dots_to_spaces(s@.subrange(0, start as int)),
            forall|k: int| start <= k < i ==> s@[k] != '.',
        decreases n - i,
    {
        let c = s.as_str().get_char(i);
        if c == '.' {
            let piece = s.as_str().substring_char(start, i);
            let ghost before = out@;
            out.append(piece);
            out.append(" ");
            proof {
                reveal_strlit(" ");
                assert(out@ =~= before + s@.subrange(start as int, i as int) + seq![' ']);
                assert(dots_to_spaces(s@.subrange(0, i + 1)) =~= before + s@.subrange(
                    start as int,
                    i as int,
                ) + seq![' ']);
            }
            start = i + 1;
        }
        i = i + 1;
    }
    let piece = s.as_str().substring_char(start, n);
    let ghost before = out@;
    out.append(piece);
    proof {
        assert(out@ =~= before + s@.subrange(start as int, n as int));
        assert(dots_to_spaces(s@) =~= before + s@.subrange(start as int, n as int));
    }
    out
}

/// The episode named by capture groups of the episode pattern.
pub fn tv_from_groups(groups: &Option<Vec<Option<String>>>) -> (r: Result<
    (String, u64, u64),
    ErrorKind,
>)
    ensures
        r is Ok <==> tv_of_groups(groups_view(*groups)) is Some,
        r is Err ==> r == Err::<(String, u64, u64), ErrorKind>(ErrorKind::ParseName),
        r matches Ok((t, s, e)) ==> tv_of_groups(groups_view(*groups)) == Some(
            (t@, s as int, e as int),
        ),
{
    let g = match groups {
        None => {
            return Err(ErrorKind::ParseName);
        },
        Some(g) => g,
    };
    if g.len() < 4 {
        return Err(ErrorKind::ParseName);
    }
    match (&g[1], &g[2], &g[3]) {
        (Some(t), Some(s), Some(e)) => {
            match (parse_u64(s), parse_u64(e)) {
                (Some(sv), Some(ev)) => Ok((dots_to_spaces_string(t), sv, ev)),
                _ => Err(ErrorKind::ParseName),
            }
        },
        _ => Err(ErrorKind::ParseName),
    }
}

/// The movie named by capture groups of the movie pattern.
pub fn movie_from_groups(groups: &Option<Vec<Option<String>>>) -> (r: Result<
    (String, u64),
    ErrorKind,
>)
    ensures
        r is Ok <==> movie_of_groups(groups_view(*groups)) is Some,
        r is Err ==> r == Err::<(String, u64), ErrorKind>(ErrorKind::ParseName),
        r matches Ok((t, y)) ==> movie_of_groups(groups_view(*groups)) == Some((t@, y as int)),
{
    let g = match groups {
        None => {
            return Err(ErrorKind::ParseName);
        },
        Some(g) => g,
    };
    if g.len() < 3 {
        return Err(ErrorKind::ParseName);
    }
    match (&g[1], &g[2]) {
        (Some(t), Some(y)) => {
            match parse_u64(y) {
                Some(yv) => Ok((dots_to_spaces_string(t), yv)),
                None => Err(ErrorKind::ParseName),
            }
        },
        _ => Err(ErrorKind::ParseName),
    }
}

impl Video {
    /// The title, season and episode that the file name gives.
    pub fn parse_tv(&self) -> (r: Result<(String, u64, u64), ErrorKind>)
        ensures
            r is Ok <==> tv_of_groups(regex_groups(TV_PATTERN@, self.path@)) is Some,
            r is Err ==> r == Err::<(String, u64, u64), ErrorKind>(ErrorKind::ParseName),
            r matches Ok((t, s, e)) ==> tv_of_groups(regex_groups(TV_PATTERN@, self.path@))
                == Some((t@, s as int, e as int)),
    {
        let groups = regex_captures(TV_PATTERN, self.path.as_str());
        tv_from_groups(&groups)
    }

    /// The title and year that the file name gives.
    pub fn parse_movie(&self) -> (r: Result<(String, u64), ErrorKind>)
        ensures
            r is Ok <==> movie_of_groups(regex_groups(MOVIE_PATTERN@, self.path@)) is Some,
            r is Err ==> r == Err::<(String, u64), ErrorKind>(ErrorKind::ParseName),
            r matches Ok((t, y)) ==> movie_of_groups(regex_groups(MOVIE_PATTERN@, self.path@))
                == Some((t@, y as int)),
    {
        let groups = regex_captures(MOVIE_PATTERN, self.path.as_str());
        movie_from_groups(&groups)
    }
}

} // verus!
