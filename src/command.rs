//! The line-oriented command grammar: `verb (SP argument)*`.

use vstd::prelude::*;

verus! {

/// The tokens of a line cut at every single space, as `str::split(' ')`
/// yields them: `n` spaces give `n + 1` tokens, some of which may be empty.
pub open spec fn split_spaces(s: Seq<char>) -> Seq<Seq<char>>
    decreases s.len(),
{
    if s.len() == 0 {
        seq![Seq::<char>::empty()]
    } else {
        let init = split_spaces(s.drop_last());
        if s.last() == ' ' {
            init.push(Seq::<char>::empty())
        } else {
            init.update(init.len() - 1, init.last().push(s.last()))
        }
    }
}

/// Tokens glued back together with one space between neighbours.
pub open spec fn join_spaces(ts: Seq<Seq<char>>) -> Seq<char>
    decreases ts.len(),
{
    if ts.len() == 0 {
        Seq::<char>::empty()
    } else if ts.len() == 1 {
        ts[0]
    } else {
        join_spaces(ts.drop_last()) + seq![' '] + ts.last()
    }
}

pub open spec fn has_no_space(s: Seq<char>) -> bool {
    forall|i: int| 0 <= i < s.len() ==> s[i] != ' '
}

pub open spec fn string_views(v: Seq<String>) -> Seq<Seq<char>> {
    v.map_values(|t: String| t@)
}

pub open spec fn swarm_verb() -> Seq<char> {
    seq!['s', 'w', 'a', 'r', 'm']
}

pub open spec fn cache_get_verb() -> Seq<char> {
    seq!['c', 'a', 'c', 'h', 'e', '_', 'g', 'e', 't']
}

pub open spec fn cache_return_verb() -> Seq<char> {
    seq!['c', 'a', 'c', 'h', 'e', '_', 'r', 'e', 't', 'u', 'r', 'n']
}

pub open spec fn id_verb() -> Seq<char> {
    seq!['i', 'd']
}

pub open spec fn random_verb() -> Seq<char> {
    seq!['r', 'a', 'n', 'd', 'o', 'm']
}

/// A command line once classified.
#[derive(Debug, PartialEq, Eq)]
pub enum Command {
    /// The first token is empty (the line is empty or starts with a space).
    Malformed,
    /// `swarm <rest>`: publish the remaining tokens, rejoined with spaces.
    Swarm { payload: String },
    /// `cache_get requestId key`.
    CacheGet { request_id: String, key: String },
    /// `id`: report the local peer identity.
    Id,
    /// `random`: draw the next unique identifier.
    Random,
    /// Any other verb, or `cache_get` without both of its arguments.
    Unrecognized,
}

/// The mathematical meaning of a [`Command`].
pub ghost enum CommandSpec {
    Malformed,
    Swarm(Seq<char>),
    CacheGet(Seq<char>, Seq<char>),
    Id,
    Random,
    Unrecognized,
}

impl View for Command {
    type V = CommandSpec;

    open spec fn view(&self) -> CommandSpec {
        match self {
            Command::Malformed => CommandSpec::Malformed,
            Command::Swarm { payload } => CommandSpec::Swarm(payload@),
            Command::CacheGet { request_id, key } => CommandSpec::CacheGet(request_id@, key@),
            Command::Id => CommandSpec::Id,
            Command::Random => CommandSpec::Random,
            Command::Unrecognized => CommandSpec::Unrecognized,
        }
    }
}

/// What a line means: its first token selects the verb, the rest are its
/// arguments.
pub open spec fn command_spec(line: Seq<char>) -> CommandSpec {
    let toks = split_spaces(line);
    let verb = toks[0];
    if verb.len() == 0 {
        CommandSpec::Malformed
    } else if verb == swarm_verb() {
        CommandSpec::Swarm(join_spaces(toks.drop_first()))
    } else if verb == cache_get_verb() {
        if toks.len() >= 3 {
            CommandSpec::CacheGet(toks[1], toks[2])
        } else {
            CommandSpec::Unrecognized
        }
    } else if verb == id_verb() {
        CommandSpec::Id
    } else if verb == random_verb() {
        CommandSpec::Random
    } else {
        CommandSpec::Unrecognized
    }
}

pub proof fn lemma_split_nonempty(s: Seq<char>)
    ensures
        split_spaces(s).len() >= 1,
    decreases s.len(),
{
    if s.len() > 0 {
        lemma_split_nonempty(s.drop_last());
    }
}


proof fn lemma_views_push(v: Seq<String>, t: String)
    ensures
        string_views(v.push(t)) == string_views(v).push(t@),
{
    assert(string_views(v.push(t)) =~= string_views(v).push(t@));
}

/// Whether two texts hold the same characters.
pub fn same_text(a: &str, b: &str) -> (r: bool)
    ensures
        r == (a@ == b@),
{
    let n = a.unicode_len();
    if n != b.unicode_len() {
        return false;
    }
    let mut i: usize = 0;
    while i < n
        invariant
            n == a@.len(),
            n == b@.len(),
            i <= n,
            a@.subrange(0, i as int) == b@.subrange(0, i as int),
        decreases n - i,
    {
        if a.get_char(i) != b.get_char(i) {
            return false;
        }
        assert(a@.subrange(0, i + 1) =~= a@.subrange(0, i as int).push(a@[i as int]));
        assert(b@.subrange(0, i + 1) =~= b@.subrange(0, i as int).push(b@[i as int]));
        i = i + 1;
    }
    assert(a@ =~= a@.subrange(0, n as int));
    assert(b@ =~= b@.subrange(0, n as int));
    true
}

/// Cuts a line at every single space.
pub fn split_tokens(line: &str) -> (r: Vec<String>)
    ensures
        string_views(r@) == split_spaces(line@),
{
    let n = line.unicode_len();
    let mut toks: Vec<String> = Vec::new();
    let mut start: usize = 0;
    let mut i: usize = 0;
    assert(line@.subrange(0, 0) =~= Seq::<char>::empty());
    assert(string_views(toks@).push(line@.subrange(0, 0)) =~= split_spaces(line@.subrange(0, 0)));
    while i < n
        invariant
            n == line@.len(),
            start <= i <= n,
            string_views(toks@).push(line@.subrange(start as int, i as int)) == split_spaces(
                line@.subrange(0, i as int),
            ),
        decreases n - i,
    {
        let c = line.get_char(i);
        let ghost pre = line@.subrange(0, i as int);
        let ghost cur = line@.subrange(0, i + 1);
        assert(cur.drop_last() =~= pre);
        assert(cur.last() == c);
        proof {
            lemma_split_nonempty(pre);
        }
        if c == ' ' {
            let tok = String::from_str(line.substring_char(start, i));
            proof {
                lemma_views_push(toks@, tok);
            }
            toks.push(tok);
            start = i + 1;
            assert(line@.subrange(start as int, start as int) =~= Seq::<char>::empty());
        } else {
            assert(line@.subrange(start as int, i + 1) =~= line@.subrange(
                start as int,
                i as int,
            ).push(c));
            assert(string_views(toks@).push(line@.subrange(start as int, i + 1)) =~= split_spaces(
                pre,
            ).update(split_spaces(pre).len() - 1, split_spaces(pre).last().push(c)));
        }
        i = i + 1;
    }
    let tok = String::from_str(line.substring_char(start, n));
    proof {
        lemma_views_push(toks@, tok);
    }
    toks.push(tok);
    assert(line@.subrange(0, n as int) =~= line@);
    toks
}

/// Joins `toks[from..]` with one space between neighbours.
pub fn join_from(toks: &Vec<String>, from: usize) -> (r: String)
    requires
        from <= toks@.len(),
    ensures
        r@ == join_spaces(string_views(toks@).subrange(from as int, toks@.len() as int)),
{
    let ghost views = string_views(toks@);
    let mut out = String::new();
    let mut i: usize = from;
    assert(views.subrange(from as int, from as int) =~= Seq::<Seq<char>>::empty());
    while i < toks.len()
        invariant
            views == string_views(toks@),
            from <= i <= toks@.len(),
            out@ == join_spaces(views.subrange(from as int, i as int)),
        decreases toks@.len() - i,
    {
        let ghost before = views.subrange(from as int, i as int);
        let ghost after = views.subrange(from as int, i + 1);
        assert(after.drop_last() =~= before);
        assert(after.last() == toks@[i as int]@);
        if i > from {
            out.append(" ");
            proof {
                reveal_strlit(" ");
            }
            assert(" "@ =~= seq![' ']);
        } else {
            assert(before =~= Seq::<Seq<char>>::empty());
        }
        out.append(toks[i].as_str());
        i = i + 1;
    }
    out
}

/// Classifies one command line.
pub fn parse_command(line: &str) -> (r: Command)
    ensures
        r@ == command_spec(line@),
{
    let toks = split_tokens(line);
    proof {
        lemma_split_nonempty(line@);
    }
    let verb = toks[0].as_str();
    proof {
        reveal_strlit("swarm");
        reveal_strlit("cache_get");
        reveal_strlit("id");
        reveal_strlit("random");
    }
    if verb.unicode_len() == 0 {
        Command::Malformed
    } else if same_text(verb, "swarm") {
        assert("swarm"@ =~= swarm_verb());
        let payload = join_from(&toks, 1);
        assert(string_views(toks@).subrange(1, toks@.len() as int) =~= string_views(
            toks@,
        ).drop_first());
        Command::Swarm { payload }
    } else if same_text(verb, "cache_get") {
        assert("cache_get"@ =~= cache_get_verb());
        if toks.len() >= 3 {
            let request_id = toks[1].clone();
            let key = toks[2].clone();
            Command::CacheGet { request_id, key }
        } else {
            Command::Unrecognized
        }
    } else if same_text(verb, "id") {
        assert("id"@ =~= id_verb());
        Command::Id
    } else if same_text(verb, "random") {
        assert("random"@ =~= random_verb());
        Command::Random
    } else {
        assert("swarm"@ =~= swarm_verb());
        assert("cache_get"@ =~= cache_get_verb());
        assert("id"@ =~= id_verb());
        assert("random"@ =~= random_verb());
        Command::Unrecognized
    }
}


/// A text without spaces is a single token.
pub proof fn lemma_split_no_space(s: Seq<char>)
    requires
        has_no_space(s),
    ensures
        split_spaces(s) == seq![s],
    decreases s.len(),
{
    if s.len() > 0 {
        let p = s.drop_last();
        assert(has_no_space(p));
        lemma_split_no_space(p);
        assert(s.last() != ' ');
        assert(p.push(s.last()) =~= s);
        assert(split_spaces(s) =~= seq![s]);
    } else {
        assert(s =~= Seq::<char>::empty());
    }
}

/// Cutting at one space splits the token list at that point.
pub proof fn lemma_split_concat(a: Seq<char>, b: Seq<char>)
    ensures
        split_spaces(a + seq![' '] + b) == split_spaces(a) + split_spaces(b),
    decreases b.len(),
{
    let s = a + seq![' '] + b;
    if b.len() == 0 {
        assert(s.drop_last() =~= a);
        assert(split_spaces(b) =~= seq![Seq::<char>::empty()]);
        assert(split_spaces(s) =~= split_spaces(a) + split_spaces(b));
    } else {
        let b0 = b.drop_last();
        lemma_split_concat(a, b0);
        lemma_split_nonempty(a);
        lemma_split_nonempty(b0);
        assert(s.drop_last() =~= a + seq![' '] + b0);
        assert(s.last() == b.last());
        assert(split_spaces(s) =~= split_spaces(a) + split_spaces(b));
    }
}

/// Joining the tokens of a line gives the line back.
pub proof fn lemma_join_split(s: Seq<char>)
    ensures
        join_spaces(split_spaces(s)) == s,
    decreases s.len(),
{
    if s.len() == 0 {
        assert(s =~= Seq::<char>::empty());
    } else {
        let p = s.drop_last();
        let c = s.last();
        lemma_join_split(p);
        lemma_split_nonempty(p);
        let t = split_spaces(p);
        assert(p.push(c) =~= s);
        if c == ' ' {
            assert(split_spaces(s).drop_last() =~= t);
            assert(join_spaces(split_spaces(s)) =~= p + seq![' '] + Seq::<char>::empty());
        } else {
            let u = split_spaces(s);
            if t.len() == 1 {
                assert(join_spaces(u) =~= s);
            } else {
                assert(u.drop_last() =~= t.drop_last());
                assert(join_spaces(u) =~= s);
            }
        }
    }
}

/// A line that starts with a space has an empty first token and at least
/// two tokens.
proof fn lemma_split_space_front(s: Seq<char>)
    requires
        s.len() > 0,
        s[0] == ' ',
    ensures
        split_spaces(s).len() >= 2,
        split_spaces(s)[0].len() == 0,
{
    assert(s =~= Seq::<char>::empty() + seq![' '] + s.drop_first());
    lemma_split_concat(Seq::<char>::empty(), s.drop_first());
    lemma_split_nonempty(s.drop_first());
}

/// A line that starts with another character has that character at the
/// front of its first token.
proof fn lemma_split_other_front(s: Seq<char>)
    requires
        s.len() > 0,
        s[0] != ' ',
    ensures
        split_spaces(s)[0].len() > 0,
    decreases s.len(),
{
    let p = s.drop_last();
    if p.len() == 0 {
        assert(split_spaces(p) =~= seq![Seq::<char>::empty()]);
    } else {
        lemma_split_other_front(p);
        lemma_split_nonempty(p);
    }
}

/// A line is malformed exactly when it is empty or starts with a space; no
/// other line is classified that way.
pub proof fn lemma_malformed_iff_blank_verb(line: Seq<char>)
    ensures
        (command_spec(line) == CommandSpec::Malformed) <==> (line.len() == 0 || line[0] == ' '),
        (command_spec(line) == CommandSpec::Malformed) <==> split_spaces(line)[0].len() == 0,
{
    if line.len() == 0 {
        assert(split_spaces(line)[0] =~= Seq::<char>::empty());
    } else if line[0] == ' ' {
        lemma_split_space_front(line);
    } else {
        lemma_split_other_front(line);
    }
}

/// `swarm <rest>` carries `<rest>` as it stands, character for character.
pub proof fn lemma_swarm_payload_is_rest(rest: Seq<char>)
    ensures
        command_spec(swarm_verb() + seq![' '] + rest) == CommandSpec::Swarm(rest),
{
    let line = swarm_verb() + seq![' '] + rest;
    assert(has_no_space(swarm_verb()));
    lemma_split_no_space(swarm_verb());
    lemma_split_concat(swarm_verb(), rest);
    lemma_join_split(rest);
    assert(split_spaces(line).drop_first() =~= split_spaces(rest));
}

/// `cache_get requestId key`, both arguments free of spaces, is read as a
/// request for `key` under `requestId`.
pub proof fn lemma_cache_get_line(request_id: Seq<char>, key: Seq<char>)
    requires
        has_no_space(request_id),
        has_no_space(key),
    ensures
        command_spec(cache_get_line(request_id, key)) == CommandSpec::CacheGet(request_id, key),
{
    assert(has_no_space(cache_get_verb()));
    lemma_split_no_space(cache_get_verb());
    lemma_split_no_space(request_id);
    lemma_split_no_space(key);
    lemma_split_concat(request_id, key);
    let tail = request_id + seq![' '] + key;
    lemma_split_concat(cache_get_verb(), tail);
    assert(cache_get_line(request_id, key) =~= cache_get_verb() + seq![' '] + tail);
    assert(split_spaces(cache_get_line(request_id, key)) =~= seq![cache_get_verb(), request_id, key]);
}

/// The line `cache_get requestId key`.
pub open spec fn cache_get_line(request_id: Seq<char>, key: Seq<char>) -> Seq<char> {
    cache_get_verb() + seq![' '] + request_id + seq![' '] + key
}

} // verus!
