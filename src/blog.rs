//! Blog posts made up from a fixed corpus: a title picked by the post's id,
//! and a body sampled from a Markov chain trained on the corpus.
use markov::Chain;
use vstd::multiset::Multiset;
use vstd::prelude::*;
use vstd::set::Set;

use crate::chars::{
    chars_of, join_with, joined_with, string_views, push_signed_decimal, push_str, signed_decimal, string_from_chars,
};
use crate::text::{lemma_words_nonempty, split_words, views, words};

verus! {

/// The text that the titles are taken from and the chain is trained on.
pub const CORPUS: &'static str = "
        Rust is a systems programming language that runs blazingly fast, prevents segfaults, and guarantees thread safety.
        Dioxus is a modern Rust framework for building user interfaces. It provides a declarative way to build cross-platform applications.
        Web development has evolved significantly over the years. Modern frameworks make it easier to build interactive applications.
        Performance optimization is crucial for web applications. Users expect fast loading times and smooth interactions.
        Type safety helps prevent many common programming errors. Rust's ownership system ensures memory safety without garbage collection.
        Full-stack development allows developers to work on both frontend and backend components of an application.
        Server-side rendering improves initial page load times and search engine optimization.
        Component-based architecture promotes code reusability and maintainability.
        Reactive programming paradigms enable building responsive user interfaces.
        Security considerations are paramount in web application development.
        Code organization and project structure impact long-term maintainability.
        Testing strategies ensure application reliability and catch regressions early.
        Deployment processes should be automated and reliable for production environments.
        User experience design principles guide interface and interaction decisions.
        Accessibility features ensure applications are usable by everyone.
        Documentation helps other developers understand and contribute to projects.
    ";

/// The token that a body's first sample starts from.
pub const ANCHOR: &'static str = "Rust";

/// The number of samples that lengthen a body after its first.
pub const EXTRA_SAMPLES: usize = 2;

/// The number of words that a title takes from its sentence.
pub const TITLE_WORDS: usize = 4;

/// The pieces of `s` between occurrences of `sep`, as `str::split` yields
/// them: one more than there are separators.
pub open spec fn pieces(s: Seq<char>, sep: char) -> Seq<Seq<char>>
    decreases s.len(),
{
    if s.len() == 0 {
        seq![seq![]]
    } else {
        let init = pieces(s.drop_last(), sep);
        if s.last() == sep {
            init.push(seq![])
        } else {
            init.update(init.len() - 1, init.last().push(s.last()))
        }
    }
}

/// The sentence of `corpus` that the post `id` is titled from: sentences
/// are the pieces between full stops, taken cyclically, so that negative
/// ids count back from the end.
pub open spec fn sentence_for(corpus: Seq<char>, id: int) -> Seq<char> {
    let sentences = pieces(corpus, '.');
    sentences[id % (sentences.len() as int)]
}

/// The title of the post `id`: the first `TITLE_WORDS` words of its
/// sentence, or `Random Thoughts #<id>` when that sentence is blank.
pub open spec fn title_of(corpus: Seq<char>, id: int) -> Seq<char> {
    let ws = words(sentence_for(corpus, id));
    if ws.len() == 0 {
        "Random Thoughts #"@ + signed_decimal(id)
    } else if ws.len() <= TITLE_WORDS {
        joined_with(ws, ' ')
    } else {
        joined_with(ws.take(TITLE_WORDS as int), ' ')
    }
}

proof fn lemma_pieces_nonempty(s: Seq<char>, sep: char)
    ensures
        pieces(s, sep).len() >= 1,
    decreases s.len(),
{
    if s.len() > 0 {
        lemma_pieces_nonempty(s.drop_last(), sep);
    }
}

/// The pieces of `v` between occurrences of `sep`.
pub fn split_on(v: &Vec<char>, sep: char) -> (r: Vec<Vec<char>>)
    ensures
        views(r@) == pieces(v@, sep),
{
    let mut out: Vec<Vec<char>> = Vec::new();
    let mut cur: Vec<char> = Vec::new();
    let mut i: usize = 0;
    assert(v@.take(0) =~= Seq::<char>::empty());
    assert(views(out@).push(cur@) =~= seq![seq![]]);
    while i < v.len()
        invariant
            i <= v.len(),
            pieces(v@.take(i as int), sep) == views(out@).push(cur@),
        decreases v.len() - i,
    {
        let c = v[i];
        let ghost before = views(out@);
        proof {
            assert(v@.take(i + 1).drop_last() =~= v@.take(i as int));
            assert(v@.take(i + 1).last() == c);
        }
        if c == sep {
            let done = cur;
            out.push(done);
            cur = Vec::new();
            assert(views(out@) =~= before.push(done@));
            assert(views(out@).push(cur@) =~= before.push(done@).push(seq![]));
        } else {
            let ghost prev = cur@;
            cur.push(c);
            assert(before.push(prev).update(before.len() as int, prev.push(c)) =~= before.push(
                cur@,
            ));
        }
        i += 1;
    }
    let ghost before = views(out@);
    let done = cur;
    out.push(done);
    assert(views(out@) =~= before.push(done@));
    assert(v@.take(i as int) =~= v@);
    out
}

/// `a % n` for a signed `a`, always in `0..n`.
pub fn cyclic_index(a: i32, n: usize) -> (r: usize)
    requires
        n > 0,
    ensures
        r == (a as int) % (n as int),
{
    if a >= 0 {
        (a as u64 % n as u64) as usize
    } else {
        let m: u64 = (-(a as i64)) as u64;
        let k = (m % n as u64) as usize;
        proof {
            let x = m as int;
            let d = n as int;
            vstd::arithmetic::div_mod::lemma_fundamental_div_mod(x, d);
            let q = x / d;
            let kk = k as int;
            let ai = a as int;
            assert(x == d * q + kk);
            assert(ai == -x);
            if k == 0 {
                assert(ai == (-q) * d + 0) by (nonlinear_arith)
                    requires
                        ai == -x,
                        x == d * q + kk,
                        kk == 0,
                ;
                vstd::arithmetic::div_mod::lemma_fundamental_div_mod_converse_mod(
                    a as int,
                    d,
                    -q,
                    0,
                );
            } else {
                assert(ai == (-q - 1) * d + (d - kk)) by (nonlinear_arith)
                    requires
                        ai == -x,
                        x == d * q + kk,
                ;
                vstd::arithmetic::div_mod::lemma_fundamental_div_mod_converse_mod(
                    a as int,
                    d,
                    -q - 1,
                    d - k,
                );
            }
        }
        if k == 0 {
            0
        } else {
            n - k
        }
    }
}

/// The title of post `blog_id`, taken from `corpus`.
pub fn title_from(corpus: &str, blog_id: i32) -> (r: String)
    ensures
        r@ == title_of(corpus@, blog_id as int),
{
    let v = chars_of(corpus);
    let sentences = split_on(&v, '.');
    proof {
        lemma_pieces_nonempty(v@, '.');
    }
    let idx = cyclic_index(blog_id, sentences.len());
    let ws = split_words(&sentences[idx]);
    assert(views(sentences@)[idx as int] == sentences[idx as int]@);
    let mut out: Vec<char> = Vec::new();
    if ws.len() == 0 {
        push_str(&mut out, "Random Thoughts #");
        push_signed_decimal(&mut out, blog_id);
    } else if ws.len() <= TITLE_WORDS {
        out = join_with(&ws, ws.len(), ' ');
        assert(views(ws@).take(ws.len() as int) =~= views(ws@));
    } else {
        out = join_with(&ws, TITLE_WORDS, ' ');
    }
    string_from_chars(&out)
}

/// A Markov chain over words. Verus refuses to declare `markov::Chain`
/// itself (its parameter is bound by the crate's own trait), so the chain
/// is held here, out of Verus's sight, and read through the functions below.
#[verifier::external_body]
pub struct WordChain {
    chain: Chain<String>,
}

/// The tokens that the texts fed to `c` began with, one for each text: the
/// successors of the chain's start state.
pub uninterp spec fn chain_openings(c: WordChain) -> Multiset<Seq<char>>;

/// The tokens that the texts fed to `c` hold: the words that a walk can
/// pass through.
pub uninterp spec fn chain_tokens(c: WordChain) -> Set<Seq<char>>;

/// `ts` is a non-empty run of tokens, each of them in `tokens`.
pub open spec fn from_tokens(ts: Seq<Seq<char>>, tokens: Set<Seq<char>>) -> bool {
    ts.len() > 0 && forall|i: int| 0 <= i < ts.len() ==> tokens.contains(#[trigger] ts[i])
}

/// The tokens `ts` joined by single spaces.
pub open spec fn spaced(ts: Seq<Seq<char>>) -> Seq<char> {
    joined_with(ts, ' ')
}

/// `t` is a run of tokens of `tokens` joined by spaces.
pub open spec fn is_token_text(t: Seq<char>, tokens: Set<Seq<char>>) -> bool {
    exists|ts: Seq<Seq<char>>| from_tokens(ts, tokens) && t == #[trigger] spaced(ts)
}

/// `t` is a run of tokens of `tokens` that begins with `head`, joined by spaces.
pub open spec fn token_run(t: Seq<char>, head: Seq<char>, tokens: Set<Seq<char>>) -> bool {
    exists|ts: Seq<Seq<char>>| from_tokens(ts, tokens) && ts[0] == head && t == #[trigger] spaced(ts)
}

/// `t` is a run of tokens of `c` that begins with a token that a fed text
/// began with, joined by spaces.
pub open spec fn opening_run(t: Seq<char>, c: WordChain) -> bool {
    exists|ts: Seq<Seq<char>>|
        from_tokens(ts, chain_tokens(c)) && chain_openings(c).contains(ts[0]) && t
            == #[trigger] spaced(ts)
}

/// The tokens of `CORPUS`: its pieces between spaces.
pub open spec fn corpus_tokens() -> Set<Seq<char>> {
    pieces(CORPUS@, ' ').to_set()
}

/// The text of `s` up to its first space: the first token that
/// `Chain::feed_str` takes from it.
pub open spec fn first_token(s: Seq<char>) -> Seq<char> {
    pieces(s, ' ')[0]
}

/// Relies on `Chain::new`: an order-one chain that nothing was fed.
#[verifier::external_body]
fn new_chain() -> (r: WordChain)
    ensures
        chain_openings(r) == Multiset::<Seq<char>>::empty(),
        chain_tokens(r) == Set::<Seq<char>>::empty(),
{
    WordChain { chain: Chain::new() }
}

/// Relies on `Chain::feed_str`: it cuts `s` at each space and feeds the
/// tokens, so the start state gains the first of them, and each of them
/// becomes a state with a successor.
#[verifier::external_body]
fn feed_text(c: &mut WordChain, s: &str)
    ensures
        chain_openings(*final(c)) == chain_openings(*old(c)).insert(first_token(s@)),
        chain_tokens(*final(c)) == chain_tokens(*old(c)).union(pieces(s@, ' ').to_set()),
{
    c.chain.feed_str(s);
}

/// Relies on `Chain::is_empty`: true when the start state has no successor.
#[verifier::external_body]
fn chain_is_empty(c: &WordChain) -> (r: bool)
    ensures
        r == (chain_openings(*c).len() == 0),
{
    c.chain.is_empty()
}

/// Relies on `Chain::generate_str`: a random walk from the start state, its
/// tokens joined by spaces; the first is one that a fed text began with,
/// and every one is a token of the fed texts. On a chain that was never
/// fed it panics (it draws from an empty range).
#[verifier::external_body]
fn sample(c: &WordChain) -> (r: String)
    requires
        chain_openings(*c).len() > 0,
    ensures
        opening_run(r@, *c),
{
    c.chain.generate_str()
}

/// Relies on `Chain::generate_str_from_token`: a random walk from `token`,
/// its tokens joined by spaces, every one a token of the fed texts; empty
/// when the chain never saw `token`.
#[verifier::external_body]
fn sample_from(c: &WordChain, token: &str) -> (r: String)
    ensures
        !chain_tokens(*c).contains(token@) ==> r@.len() == 0,
        chain_tokens(*c).contains(token@) ==> token_run(r@, token@, chain_tokens(*c)),
{
    c.chain.generate_str_from_token(token)
}

/// `acc` extended by `more`: a space and `more`, unless `more` is empty.
pub open spec fn extended(acc: Seq<char>, more: Seq<char>) -> Seq<char> {
    if more.len() == 0 {
        acc
    } else {
        acc + seq![' '] + more
    }
}

/// `acc` extended by each of `more` in turn.
pub open spec fn extended_by_all(acc: Seq<char>, more: Seq<Seq<char>>) -> Seq<char>
    decreases more.len(),
{
    if more.len() == 0 {
        acc
    } else {
        extended(extended_by_all(acc, more.drop_last()), more.last())
    }
}

/// The body when the chain gave nothing.
pub open spec fn fallback_body(id: int) -> Seq<char> {
    "This is a generated blog post using blog ID "@ + signed_decimal(id)
        + " as a seed. The content is created using Markov chains to produce pseudo-random but coherent text about Rust and web development."@
}

/// The body when the chain was never trained.
pub open spec fn untrained_body(id: int) -> Seq<char> {
    "This is a generated blog post using blog ID "@ + signed_decimal(id)
        + " as a seed. The content is created using Markov chains to produce pseudo-random but coherent text."@
}

/// The body made of the samples `first` and `more`: `first` extended by
/// each of `more`, or the fallback text of post `id` when that is empty.
pub open spec fn body_of(id: int, first: Seq<char>, more: Seq<Seq<char>>) -> Seq<char> {
    let text = extended_by_all(first, more);
    if text.len() == 0 {
        fallback_body(id)
    } else {
        text
    }
}

/// The body of post `blog_id` made of the chain's samples: `first`, then
/// each non-empty text of `more` after a space; the fallback text when all
/// of them are empty.
pub fn compose_body(blog_id: i32, first: &str, more: &Vec<String>) -> (r: String)
    ensures
        r@ == body_of(blog_id as int, first@, string_views(more@)),
        r@.len() > 0,
{
    let mut out = chars_of(first);
    let mut i: usize = 0;
    assert(string_views(more@).take(0) =~= Seq::<Seq<char>>::empty());
    while i < more.len()
        invariant
            i <= more.len(),
            out@ == extended_by_all(first@, string_views(more@).take(i as int)),
        decreases more.len() - i,
    {
        let piece = chars_of(more[i].as_str());
        let ghost before = out@;
        if piece.len() > 0 {
            out.push(' ');
            let mut j: usize = 0;
            while j < piece.len()
                invariant
                    j <= piece.len(),
                    out@ == before + seq![' '] + piece@.take(j as int),
                decreases piece.len() - j,
            {
                out.push(piece[j]);
                j += 1;
                assert(out@ =~= before + seq![' '] + piece@.take(j as int));
            }
            assert(piece@.take(j as int) =~= piece@);
        }
        assert(string_views(more@).take(i + 1).drop_last() =~= string_views(more@).take(i as int));
        i += 1;
    }
    assert(string_views(more@).take(i as int) =~= string_views(more@));
    if out.len() == 0 {
        let mut fallback: Vec<char> = Vec::new();
        push_str(&mut fallback, "This is a generated blog post using blog ID ");
        push_signed_decimal(&mut fallback, blog_id);
        push_str(
            &mut fallback,
            " as a seed. The content is created using Markov chains to produce pseudo-random but coherent text about Rust and web development.",
        );
        proof {
            reveal_strlit("This is a generated blog post using blog ID ");
        }
        assert(fallback@ =~= fallback_body(blog_id as int));
        string_from_chars(&fallback)
    } else {
        string_from_chars(&out)
    }
}

/// The body of post `blog_id` when the chain was never trained.
fn untrained(blog_id: i32) -> (r: String)
    ensures
        r@ == untrained_body(blog_id as int),
{
    let mut text: Vec<char> = Vec::new();
    push_str(&mut text, "This is a generated blog post using blog ID ");
    push_signed_decimal(&mut text, blog_id);
    push_str(
        &mut text,
        " as a seed. The content is created using Markov chains to produce pseudo-random but coherent text.",
    );
    assert(text@ =~= untrained_body(blog_id as int));
    string_from_chars(&text)
}

/// The title and body of post `blog_id`. The title is fixed by the id; the
/// body is sampled from a chain trained on `CORPUS`, starting from
/// `ANCHOR`, so it differs from call to call. Neither is ever empty. The
/// body is the fallback text or a run of corpus tokens joined by spaces;
/// where `ANCHOR` is a corpus token, it is a run that begins with it.
pub fn generate_blog_content(blog_id: i32) -> (r: (String, String))
    ensures
        r.0@ == title_of(CORPUS@, blog_id as int),
        r.0@.len() > 0,
        r.1@.len() > 0,
        exists|first: Seq<char>, more: Seq<Seq<char>>|
            more.len() == EXTRA_SAMPLES && r.1@ == body_of(blog_id as int, first, more),
        r.1@ == fallback_body(blog_id as int) || is_token_text(r.1@, corpus_tokens()),
        corpus_tokens().contains(ANCHOR@) ==> exists|ts: Seq<Seq<char>>|
            from_tokens(ts, corpus_tokens()) && ts[0] == ANCHOR@ && r.1@ == #[trigger] spaced(ts),
{
    let title = title_from(CORPUS, blog_id);
    proof {
        lemma_title_nonempty(CORPUS@, blog_id as int);
    }
    let mut chain = new_chain();
    feed_text(&mut chain, CORPUS);
    assert(chain_tokens(chain) =~= corpus_tokens());
    let body = if !chain_is_empty(&chain) {
        let mut first = sample_from(&chain, ANCHOR);
        let ghost mut fts: Seq<Seq<char>> = Seq::empty();
        if first.as_str().is_empty() {
            proof {
                if corpus_tokens().contains(ANCHOR@) {
                    let ts0 = choose|ts: Seq<Seq<char>>|
                        from_tokens(ts, corpus_tokens()) && ts[0] == ANCHOR@ && first@
                            == #[trigger] spaced(ts);
                    assert(ANCHOR@.len() > 0) by {
                        reveal_strlit("Rust");
                    }
                    lemma_joined_nonempty(ts0);
                }
            }
            first = sample(&chain);
            proof {
                fts = choose|ts: Seq<Seq<char>>|
                    from_tokens(ts, chain_tokens(chain)) && chain_openings(chain).contains(ts[0])
                        && first@ == #[trigger] spaced(ts);
            }
        } else {
            proof {
                fts = choose|ts: Seq<Seq<char>>|
                    from_tokens(ts, corpus_tokens()) && ts[0] == ANCHOR@ && first@
                        == #[trigger] spaced(ts);
            }
        }
        assert(from_tokens(fts, corpus_tokens()) && first@ == spaced(fts));
        assert(corpus_tokens().contains(ANCHOR@) ==> fts[0] == ANCHOR@);
        let mut more: Vec<String> = Vec::new();
        let mut k: usize = 0;
        while k < EXTRA_SAMPLES
            invariant
                chain_openings(chain).len() > 0,
                chain_tokens(chain) == corpus_tokens(),
                more.len() == k <= EXTRA_SAMPLES,
                forall|j: int| 0 <= j < k ==> is_token_text(#[trigger] more@[j]@, corpus_tokens()),
            decreases EXTRA_SAMPLES - k,
        {
            let s = sample(&chain);
            assert(is_token_text(s@, corpus_tokens()));
            let ghost before = more@;
            more.push(s);
            assert forall|j: int| 0 <= j < k + 1 implies is_token_text(
                #[trigger] more@[j]@,
                corpus_tokens(),
            ) by {
                if j < k {
                    assert(more@[j] == before[j]);
                }
            }
            k += 1;
        }
        let body = compose_body(blog_id, first.as_str(), &more);
        proof {
            let mv = string_views(more@);
            assert(mv.len() == EXTRA_SAMPLES);
            assert(body@ == body_of(blog_id as int, first@, mv));
            assert forall|j: int| 0 <= j < mv.len() implies is_token_text(
                #[trigger] mv[j],
                corpus_tokens(),
            ) by {
                assert(mv[j] == more@[j]@);
            }
            lemma_extended_tokens(first@, fts, mv, corpus_tokens());
            let bts = choose|ts: Seq<Seq<char>>|
                from_tokens(ts, corpus_tokens()) && ts[0] == fts[0] && extended_by_all(first@, mv)
                    == #[trigger] spaced(ts);
            if corpus_tokens().contains(ANCHOR@) {
                assert(ANCHOR@.len() > 0) by {
                    reveal_strlit("Rust");
                }
                lemma_joined_nonempty(bts);
                assert(body@ == joined_with(bts, ' '));
            }
        }
        body
    } else {
        untrained(blog_id)
    };
    (title, body)
}

/// The post that a page links back to: the one before `id`, for posts
/// after the first.
pub fn previous_post(id: i32) -> (r: Option<i32>)
    ensures
        r == (if id > 1 {
            Some((id - 1) as i32)
        } else {
            None::<i32>
        }),
{
    if id > 1 {
        Some(id - 1)
    } else {
        None
    }
}

/// The post that a page links on to: the one after `id`, unless `id` is
/// the largest.
pub fn next_post(id: i32) -> (r: Option<i32>)
    ensures
        r == (if id < i32::MAX {
            Some((id + 1) as i32)
        } else {
            None::<i32>
        }),
{
    if id < i32::MAX {
        Some(id + 1)
    } else {
        None
    }
}

proof fn lemma_joined_concat(a: Seq<Seq<char>>, b: Seq<Seq<char>>, sep: char)
    requires
        a.len() > 0,
        b.len() > 0,
    ensures
        joined_with(a + b, sep) == joined_with(a, sep) + seq![sep] + joined_with(b, sep),
    decreases b.len(),
{
    assert((a + b).drop_last() =~= a + b.drop_last());
    assert((a + b).last() == b.last());
    if b.len() == 1 {
        assert(a + b.drop_last() =~= a);
        assert(joined_with(b, sep) == b[0]);
    } else {
        lemma_joined_concat(a, b.drop_last(), sep);
        assert(joined_with(a + b, sep) =~= joined_with(a, sep) + seq![sep] + joined_with(b, sep));
    }
}

proof fn lemma_extended_tokens(acc: Seq<char>, first: Seq<Seq<char>>, more: Seq<Seq<char>>, tokens: Set<Seq<char>>)
    requires
        from_tokens(first, tokens),
        acc == joined_with(first, ' '),
        forall|k: int| 0 <= k < more.len() ==> is_token_text(#[trigger] more[k], tokens),
    ensures
        exists|ts: Seq<Seq<char>>|
            from_tokens(ts, tokens) && ts[0] == first[0] && extended_by_all(acc, more)
                == #[trigger] spaced(ts),
    decreases more.len(),
{
    if more.len() == 0 {
        assert(extended_by_all(acc, more) == spaced(first));
    } else {
        assert forall|k: int| 0 <= k < more.drop_last().len() implies is_token_text(
            #[trigger] more.drop_last()[k],
            tokens,
        ) by {
            assert(more.drop_last()[k] == more[k]);
        }
        lemma_extended_tokens(acc, first, more.drop_last(), tokens);
        let prev = choose|ts: Seq<Seq<char>>|
            from_tokens(ts, tokens) && ts[0] == first[0] && extended_by_all(acc, more.drop_last())
                == #[trigger] spaced(ts);
        assert(is_token_text(more[more.len() - 1], tokens));
        let last = choose|ts: Seq<Seq<char>>|
            from_tokens(ts, tokens) && more.last() == #[trigger] spaced(ts);
        if more.last().len() == 0 {
            assert(extended_by_all(acc, more) == spaced(prev));
        } else {
            lemma_joined_concat(prev, last, ' ');
            let all = prev + last;
            assert(from_tokens(all, tokens)) by {
                assert forall|i: int| 0 <= i < all.len() implies tokens.contains(#[trigger] all[i]) by {
                    if i < prev.len() {
                        assert(all[i] == prev[i]);
                    } else {
                        assert(all[i] == last[i - prev.len()]);
                    }
                }
            }
            assert(all[0] == prev[0]);
            assert(extended_by_all(acc, more) == spaced(all));
        }
    }
}

proof fn lemma_joined_nonempty(ws: Seq<Seq<char>>)
    requires
        ws.len() > 0,
        ws[0].len() > 0,
    ensures
        joined_with(ws, ' ').len() > 0,
    decreases ws.len(),
{
    if ws.len() > 1 {
        assert(ws.drop_last()[0] == ws[0]);
        lemma_joined_nonempty(ws.drop_last());
    }
}

proof fn lemma_title_nonempty(corpus: Seq<char>, id: int)
    ensures
        title_of(corpus, id).len() > 0,
{
    let ws = words(sentence_for(corpus, id));
    lemma_words_nonempty(sentence_for(corpus, id));
    if ws.len() == 0 {
        assert(("Random Thoughts #"@ + signed_decimal(id)).len() > 0) by {
            reveal_strlit("Random Thoughts #");
        }
    } else if ws.len() <= TITLE_WORDS {
        assert(ws[0].len() > 0);
        lemma_joined_nonempty(ws);
    } else {
        assert(ws.take(TITLE_WORDS as int)[0] == ws[0]);
        assert(ws[0].len() > 0);
        lemma_joined_nonempty(ws.take(TITLE_WORDS as int));
    }
}

} // verus!
