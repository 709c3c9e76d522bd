//! The summarizer agent: condenses its input by a configurable style —
//! bullet points over the first sentences, key-point filtering, or plain
//! truncation to a maximum length — and keeps a bounded history of inputs.

use vstd::prelude::*;
use vstd::string::StringExecFns;
use crate::agents::state::{lemma_sl_push_view, lemma_sl_tail_view, sl_len_capped, sl_push_x, sl_view, StrList};
use crate::bridge::push_char;
use crate::graph::Agent;
use crate::json::is_ws;
use crate::text::{chars_of, contains_sub, is_sub_at, join_sep, join_with, matches_at, str_contains};
use crate::tools::CombinedToolRegistry;

verus! {

/// How a summary is phrased.
#[derive(Clone, Copy)]
pub enum SummaryStyle {
    /// Bullet points over the first sentences.
    Bullets,
    /// Paragraph form.
    Paragraph,
    /// Sentences holding key words only.
    KeyPoints,
    /// Executive summary.
    Executive,
}

/// Configuration of a summarizer.
#[derive(Clone, Copy)]
pub struct SummarizerConfig {
    /// The maximum summary length, in characters, for the truncating styles.
    pub max_length: usize,
    /// Whether to preserve key entities.
    pub preserve_entities: bool,
    /// Whether to include timestamps.
    pub include_timestamps: bool,
    /// The summary style.
    pub style: SummaryStyle,
}

impl Default for SummarizerConfig {
    /// Paragraph style with a 500-character bound.
    fn default() -> (r: SummarizerConfig)
        ensures
            r.max_length == 500,
            r.preserve_entities == true,
            r.include_timestamps == false,
            r.style is Paragraph,
    {
        SummarizerConfig {
            max_length: 500,
            preserve_entities: true,
            include_timestamps: false,
            style: SummaryStyle::Paragraph,
        }
    }
}

/// The first position at or after `i` where `sep` stands in `s`, or -1.
pub open spec fn find_sub_at(s: Seq<char>, sep: Seq<char>, i: int) -> int
    decreases s.len() - i,
{
    if sep.len() == 0 || i < 0 || i + sep.len() > s.len() {
        -1
    } else if is_sub_at(s, sep, i) {
        i
    } else {
        find_sub_at(s, sep, i + 1)
    }
}

/// `s` split at every occurrence of `sep`, in order; the fuel bounds the
/// number of splits, and the text's length always suffices.
pub open spec fn split_sep(s: Seq<char>, sep: Seq<char>, fuel: nat) -> Seq<Seq<char>>
    decreases fuel,
{
    let idx = find_sub_at(s, sep, 0);
    if idx < 0 || fuel == 0 {
        seq![s]
    } else {
        seq![s.take(idx)] + split_sep(s.skip(idx + sep.len()), sep, (fuel - 1) as nat)
    }
}

/// The first position at or after `i` holding no whitespace.
pub open spec fn first_non_ws(s: Seq<char>, i: int) -> int
    decreases s.len() - i,
{
    if i < 0 || i >= s.len() {
        i
    } else if is_ws(s[i]) {
        first_non_ws(s, i + 1)
    } else {
        i
    }
}

/// The position after the last non-whitespace character before `j`.
pub open spec fn last_non_ws(s: Seq<char>, j: int) -> int
    decreases j,
{
    if j <= 0 {
        0
    } else if is_ws(s[j - 1]) {
        last_non_ws(s, j - 1)
    } else {
        j
    }
}

/// `s` without leading and trailing whitespace.
pub open spec fn trim_ws(s: Seq<char>) -> Seq<char> {
    let a = first_non_ws(s, 0);
    let b = last_non_ws(s, s.len() as int);
    if b <= a {
        Seq::empty()
    } else {
        s.subrange(a, b)
    }
}

/// Whether a sentence holds one of the key words.
pub open spec fn is_key_sentence(s: Seq<char>) -> bool {
    ||| contains_sub(s, "important"@)
    ||| contains_sub(s, "key"@)
    ||| contains_sub(s, "critical"@)
    ||| contains_sub(s, "main"@)
}

/// The sentences holding key words, in order.
pub open spec fn key_sentences(ss: Seq<Seq<char>>) -> Seq<Seq<char>>
    decreases ss.len(),
{
    if ss.len() == 0 {
        Seq::empty()
    } else if is_key_sentence(ss[0]) {
        seq![ss[0]] + key_sentences(ss.drop_first())
    } else {
        key_sentences(ss.drop_first())
    }
}

/// The smaller of two lengths.
pub open spec fn min_nat(a: nat, b: nat) -> nat {
    if a < b {
        a
    } else {
        b
    }
}

/// The summary of an input under a configuration: bullet points over the
/// first three sentences; the first three key sentences (or the first two
/// sentences when none hold a key word); or, for the other styles, the input
/// truncated to the configured length with an ellipsis.
pub open spec fn spec_summarize(config: SummarizerConfig, input: Seq<char>) -> Seq<char> {
    let sentences = split_sep(input, ". "@, input.len());
    match config.style {
        SummaryStyle::Bullets => join_sep(
            sentences.take(min_nat(3, sentences.len()) as int).map_values(
                |s: Seq<char>| "\u{e2}\u{20ac}\u{a2} "@ + trim_ws(s),
            ),
            "\n"@,
        ),
        SummaryStyle::KeyPoints => {
            let keys = key_sentences(sentences);
            if keys.len() == 0 {
                join_sep(sentences.take(min_nat(2, sentences.len()) as int), ". "@)
            } else {
                join_sep(keys.take(min_nat(3, keys.len()) as int), ". "@)
            }
        },
        _ => {
            if input.len() > config.max_length as nat {
                input.take(config.max_length as int) + "..."@
            } else {
                input
            }
        },
    }
}

fn string_of_chars(cs: &Vec<char>, from: usize, to: usize) -> (r: String)
    requires
        from <= to <= cs@.len(),
    ensures
        r@ == cs@.subrange(from as int, to as int),
{
    let mut r = String::new();
    let mut i = from;
    while i < to
        invariant
            from <= i <= to <= cs@.len(),
            r@ == cs@.subrange(from as int, i as int),
        decreases to - i,
    {
        push_char(&mut r, cs[i]);
        proof {
            assert(r@ =~= cs@.subrange(from as int, i + 1));
        }
        i = i + 1;
    }
    r
}

fn find_sub_x(cs: &Vec<char>, sep: &Vec<char>, i: usize) -> (r: Option<usize>)
    requires
        i <= cs@.len(),
    ensures
        match r {
            Some(j) => find_sub_at(cs@, sep@, i as int) == j as int && is_sub_at(
                cs@,
                sep@,
                j as int,
            ) && j + sep@.len() <= cs@.len(),
            None => find_sub_at(cs@, sep@, i as int) == -1,
        },
    decreases cs@.len() - i,
{
    let len = cs.len();
    if sep.len() == 0 || sep.len() > len || i > len - sep.len() {
        return None;
    }
    if matches_at(cs, sep, i) {
        Some(i)
    } else {
        find_sub_x(cs, sep, i + 1)
    }
}

fn split_x(cs: Vec<char>, sep: &Vec<char>, fuel: usize) -> (r: Vec<String>)
    requires
        sep@.len() > 0,
    ensures
        r.deep_view() == split_sep(cs@, sep@, fuel as nat),
    decreases fuel,
{
    let found = find_sub_x(&cs, sep, 0);
    match found {
        Some(idx) if fuel > 0 => {
            let ghost cs0 = cs@;
            let head = string_of_chars(&cs, 0, idx);
            proof {
                assert(cs@.subrange(0, idx as int) =~= cs@.take(idx as int));
            }
            let len_cs = cs.len();
            proof {
                assert(idx + sep@.len() <= cs@.len());
            }
            let mut rest_cs: Vec<char> = Vec::new();
            let mut k = idx + sep.len();
            while k < cs.len()
                invariant
                    idx + sep@.len() <= k <= cs@.len(),
                    cs@ == cs0,
                    rest_cs@ == cs0.subrange(idx + sep@.len(), k as int),
                decreases cs@.len() - k,
            {
                rest_cs.push(cs[k]);
                proof {
                    assert(rest_cs@ =~= cs0.subrange(idx + sep@.len(), k + 1));
                }
                k = k + 1;
            }
            proof {
                assert(rest_cs@ =~= cs0.skip(idx + sep@.len()));
            }
            let rest = split_x(rest_cs, sep, fuel - 1);
            let ghost rest0 = rest.deep_view();
            let mut out: Vec<String> = Vec::new();
            out.push(head);
            let mut rest_mut = rest;
            out.append(&mut rest_mut);
            proof {
                assert(out.deep_view() =~= seq![cs0.take(idx as int)] + rest0);
            }
            out
        },
        _ => {
            let whole = string_of_chars(&cs, 0, cs.len());
            proof {
                assert(cs@.subrange(0, cs@.len() as int) =~= cs@);
            }
            let mut out: Vec<String> = Vec::new();
            out.push(whole);
            proof {
                assert(out.deep_view() =~= seq![cs@]);
            }
            out
        },
    }
}

fn trim_x(s: &str) -> (r: String)
    ensures
        r@ == trim_ws(s@),
{
    let cs = chars_of(s);
    let len = cs.len();
    let mut a: usize = 0;
    while a < len && (cs[a] == ' ' || cs[a] == '\t' || cs[a] == '\n' || cs[a] == '\r')
        invariant
            a <= len,
            len == cs@.len(),
            cs@ == s@,
            first_non_ws(s@, 0) == first_non_ws(s@, a as int),
        decreases len - a,
    {
        a = a + 1;
    }
    let mut b: usize = len;
    while b > a && (cs[b - 1] == ' ' || cs[b - 1] == '\t' || cs[b - 1] == '\n' || cs[b - 1] == '\r')
        invariant
            a <= b <= len,
            len == cs@.len(),
            cs@ == s@,
            first_non_ws(s@, 0) == first_non_ws(s@, a as int),
            a < len ==> !is_ws(s@[a as int]),
            last_non_ws(s@, len as int) == last_non_ws(s@, b as int),
        decreases b,
    {
        b = b - 1;
    }
    proof {
        assert(first_non_ws(s@, a as int) == a || (a == len && first_non_ws(s@, a as int) == a));
        if b > a {
            assert(last_non_ws(s@, b as int) == b);
            assert(first_non_ws(s@, 0) == a as int);
        } else {
            assert(b == a);
            lemma_last_non_ws_le(s@, b as int);
        }
    }
    if b <= a {
        proof {
            assert(trim_ws(s@) =~= Seq::<char>::empty()) by {
                assert(last_non_ws(s@, s@.len() as int) <= a as int);
            }
        }
        String::new()
    } else {
        string_of_chars(&cs, a, b)
    }
}

/// The end of a whitespace-trimmed range never passes its start.
proof fn lemma_last_non_ws_le(s: Seq<char>, j: int)
    requires
        0 <= j <= s.len(),
    ensures
        last_non_ws(s, j) <= j,
    decreases j,
{
    if j > 0 && is_ws(s[j - 1]) {
        lemma_last_non_ws_le(s, j - 1);
    }
}

/// Condenses inputs by the configured style and keeps a bounded input
/// history.
pub struct SummarizerAgent {
    /// The summarization configuration.
    pub config: SummarizerConfig,
    /// The agent's name.
    pub name: String,
    /// Prior inputs, oldest first.
    pub history: StrList,
    /// The history bound.
    pub max_history: usize,
}

/// Mathematical image of a summarizer.
#[verifier::ext_equal]
pub ghost struct SummarizerAgentV {
    pub config: SummarizerConfig,
    pub name: String,
    pub history: Seq<Seq<char>>,
    pub max_history: usize,
}

impl SummarizerAgent {
    /// Creates a summarizer with the default configuration and a history
    /// bound of 10.
    pub fn new() -> (r: SummarizerAgent)
        ensures
            r.config.max_length == 500,
            r.config.style is Paragraph,
            r.name@ == "Summarizer"@,
            sl_view(r.history) == Seq::<Seq<char>>::empty(),
            r.max_history == 10,
    {
        SummarizerAgent {
            config: SummarizerConfig::default(),
            name: String::from_str("Summarizer"),
            history: StrList::Nil,
            max_history: 10,
        }
    }

    /// Sets the configuration.
    pub fn with_config(self, config: SummarizerConfig) -> (r: Self)
        ensures
            r == (SummarizerAgent { config, ..self }),
    {
        SummarizerAgent { config, ..self }
    }

    /// Sets the agent's name.
    pub fn with_name(self, name: &str) -> (r: Self)
        ensures
            r.config == self.config,
            r.name@ == name@,
            r.history == self.history,
            r.max_history == self.max_history,
    {
        SummarizerAgent { name: String::from_str(name), ..self }
    }

    /// Condenses the text under the configured style.
    pub fn summarize(&self, text: &str) -> (r: String)
        ensures
            r@ == spec_summarize(self.config, text@),
    {
        let cs = chars_of(text);
        let text_len = cs.len();
        match self.config.style {
            SummaryStyle::Bullets => {
                let sep = chars_of(". ");
                proof {
                    reveal_strlit(". ");
                }
                let sentences = split_x(cs, &sep, text_len);
                let ghost sview = split_sep(text@, ". "@, text@.len());
                let n = if sentences.len() < 3 {
                    sentences.len()
                } else {
                    3
                };
                let mut bullets: Vec<String> = Vec::new();
                let mut i: usize = 0;
                while i < n
                    invariant
                        i <= n,
                        n <= sentences@.len(),
                        sentences.deep_view() == sview,
                        bullets@.len() == i,
                        forall|k: int|
                            0 <= k < i ==> bullets.deep_view()[k] == "\u{e2}\u{20ac}\u{a2} "@
                                + trim_ws(sview[k]),
                    decreases n - i,
                {
                    let ghost bl0 = bullets.deep_view();
                    let mut b = String::from_str("\u{e2}\u{20ac}\u{a2} ");
                    b.append(trim_x(sentences[i].as_str()).as_str());
                    let ghost bv = b@;
                    proof {
                        assert(sentences.deep_view()[i as int] == sview[i as int]);
                        assert(bv == "\u{e2}\u{20ac}\u{a2} "@ + trim_ws(sview[i as int]));
                    }
                    bullets.push(b);
                    proof {
                        assert forall|k: int| 0 <= k < i + 1 implies bullets.deep_view()[k]
                            == "\u{e2}\u{20ac}\u{a2} "@ + trim_ws(sview[k]) by {
                            if k == i {
                                assert(bullets.deep_view()[k] == bv);
                            } else {
                                assert(bullets.deep_view()[k] == bl0[k]);
                            }
                        }
                    }
                    i = i + 1;
                }
                proof {
                    let mapped = sview.take(n as int).map_values(
                        |s: Seq<char>| "\u{e2}\u{20ac}\u{a2} "@ + trim_ws(s),
                    );
                    assert forall|k: int| 0 <= k < n implies mapped[k] == bullets.deep_view()[k] by {
                        assert(sview.take(n as int)[k] == sview[k]);
                    }
                    assert(bullets.deep_view() =~= mapped);
                }
                join_with(&bullets, "\n")
            },
            SummaryStyle::KeyPoints => {
                let sep = chars_of(". ");
                proof {
                    reveal_strlit(". ");
                }
                let sentences = split_x(cs, &sep, text_len);
                let ghost sview = split_sep(text@, ". "@, text@.len());
                let mut keys: Vec<String> = Vec::new();
                let mut i: usize = 0;
                proof {
                    assert(sview.skip(0) =~= sview);
                }
                while i < sentences.len()
                    invariant
                        i <= sentences@.len(),
                        sentences.deep_view() == sview,
                        key_sentences(sview) =~= keys.deep_view() + key_sentences(
                            sview.skip(i as int),
                        ),
                    decreases sentences@.len() - i,
                {
                    let s = &sentences[i];
                    let keep = str_contains(s.as_str(), "important") || str_contains(
                        s.as_str(),
                        "key",
                    ) || str_contains(s.as_str(), "critical") || str_contains(s.as_str(), "main");
                    let ghost k0 = keys.deep_view();
                    if keep {
                        keys.push(s.clone());
                    }
                    proof {
                        assert(sview.skip(i as int)[0] == sview[i as int]);
                        assert(sview.skip(i as int).drop_first() =~= sview.skip(i + 1));
                        if keep {
                            assert(keys.deep_view() =~= k0.push(sview[i as int]));
                            assert(k0.push(sview[i as int]) + key_sentences(sview.skip(i + 1))
                                =~= k0 + (seq![sview[i as int]] + key_sentences(sview.skip(i + 1))));
                        }
                    }
                    i = i + 1;
                }
                proof {
                    assert(sview.skip(sview.len() as int) =~= Seq::<Seq<char>>::empty());
                    assert(keys.deep_view() =~= key_sentences(sview));
                }
                if keys.len() == 0 {
                    let m = if sentences.len() < 2 {
                        sentences.len()
                    } else {
                        2
                    };
                    let mut firsts: Vec<String> = Vec::new();
                    let mut j: usize = 0;
                    while j < m
                        invariant
                            j <= m,
                            m <= sentences@.len(),
                            sentences.deep_view() == sview,
                            firsts@.len() == j,
                            forall|k: int| 0 <= k < j ==> firsts.deep_view()[k] == sview[k],
                        decreases m - j,
                    {
                        firsts.push(sentences[j].clone());
                        proof {
                            assert(sentences.deep_view()[j as int] == sview[j as int]);
                        }
                        j = j + 1;
                    }
                    proof {
                        assert(firsts.deep_view() =~= sview.take(m as int));
                    }
                    join_with(&firsts, ". ")
                } else {
                    let m = if keys.len() < 3 {
                        keys.len()
                    } else {
                        3
                    };
                    let ghost kview = key_sentences(sview);
                    let mut firsts: Vec<String> = Vec::new();
                    let mut j: usize = 0;
                    while j < m
                        invariant
                            j <= m,
                            m <= keys@.len(),
                            keys.deep_view() == kview,
                            firsts@.len() == j,
                            forall|k: int| 0 <= k < j ==> firsts.deep_view()[k] == kview[k],
                        decreases m - j,
                    {
                        firsts.push(keys[j].clone());
                        proof {
                            assert(keys.deep_view()[j as int] == kview[j as int]);
                        }
                        j = j + 1;
                    }
                    proof {
                        assert(firsts.deep_view() =~= kview.take(m as int));
                    }
                    join_with(&firsts, ". ")
                }
            },
            _ => {
                if text_len > self.config.max_length {
                    let mut r = string_of_chars(&cs, 0, self.config.max_length);
                    r.append("...");
                    proof {
                        assert(cs@.subrange(0, self.config.max_length as int) =~= text@.take(
                            self.config.max_length as int,
                        ));
                    }
                    r
                } else {
                    string_of_chars(&cs, 0, text_len)
                }
            },
        }
    }
}

impl Default for SummarizerAgent {
    /// The same summarizer `new` creates.
    fn default() -> (r: SummarizerAgent)
        ensures
            r.config.max_length == 500,
            r.config.style is Paragraph,
            r.name@ == "Summarizer"@,
            sl_view(r.history) == Seq::<Seq<char>>::empty(),
            r.max_history == 10,
    {
        SummarizerAgent::new()
    }
}

impl View for SummarizerAgent {
    type V = SummarizerAgentV;

    open spec fn view(&self) -> SummarizerAgentV {
        SummarizerAgentV {
            config: self.config,
            name: self.name,
            history: sl_view(self.history),
            max_history: self.max_history,
        }
    }
}

/// The history after one invocation: the input appended, the oldest entry
/// evicted when the bound is exceeded.
pub open spec fn bumped_history(history: Seq<Seq<char>>, input: Seq<char>, max_history: usize) -> Seq<
    Seq<char>,
> {
    let pushed = history.push(input);
    if max_history < usize::MAX && pushed.len() > max_history as nat {
        pushed.drop_first()
    } else {
        pushed
    }
}

impl Agent for SummarizerAgent {
    open spec fn spec_output(v: SummarizerAgentV, input: Seq<char>) -> Seq<char> {
        "Summary: "@ + spec_summarize(v.config, input)
    }

    open spec fn spec_next(v: SummarizerAgentV, input: Seq<char>) -> Option<i32> {
        None
    }

    open spec fn spec_step(v: SummarizerAgentV, input: Seq<char>) -> SummarizerAgentV {
        SummarizerAgentV {
            config: v.config,
            name: v.name,
            history: bumped_history(v.history, input, v.max_history),
            max_history: v.max_history,
        }
    }

    open spec fn spec_name(&self) -> Seq<char> {
        self.name@
    }

    fn run(&mut self, input: &str, tools: &CombinedToolRegistry) -> (r: (String, Option<i32>)) {
        let owned = String::from_str(input);
        let mut hist = StrList::Nil;
        core::mem::swap(&mut hist, &mut self.history);
        let ghost hist0 = hist;
        let mut hist = sl_push_x(hist, owned);
        proof {
            lemma_sl_push_view(hist0, owned);
        }
        let over = if self.max_history < usize::MAX {
            sl_len_capped(&hist, self.max_history + 1) > self.max_history
        } else {
            false
        };
        if over {
            proof {
                lemma_sl_tail_view(hist);
            }
            let tail = match hist {
                StrList::Nil => StrList::Nil,
                StrList::Cons(_, rest) => *rest,
            };
            hist = tail;
        }
        self.history = hist;
        proof {
            assert(sl_view(hist) == bumped_history(sl_view(hist0), input@, self.max_history));
        }
        let mut response = String::from_str("Summary: ");
        response.append(self.summarize(input).as_str());
        (response, None)
    }

    fn get_name(&self) -> (r: &str) {
        self.name.as_str()
    }
}

} // verus!
