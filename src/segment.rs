use vstd::prelude::*;

use crate::text::{chars_of, string_from_chars, views};
use vstd::seq_lib::lemma_flatten_concat;

verus! {

/// How the segmenter looks for a break point in the text it holds.
#[derive(Clone, Copy, Debug, PartialEq, Eq, Structural)]
pub enum BreakPolicy {
    /// Break right after the first sentence marker (`~`) or newline anywhere in
    /// the text, however short it is. Suits a generator that was asked to put a
    /// marker after each sentence.
    Marked,
    /// Break right after the first sentence terminator (`.`, `?`, `!`, newline)
    /// anywhere in the text, however short it is: the lowest latency.
    FirstTerminator,
    /// Break after the last sentence terminator (`.`, `?`, `!`, newline). Once the
    /// text is longer than `max_chars` characters the break is forced inside the
    /// first `max_chars` characters, falling back from terminators to secondary
    /// punctuation, to the word " and ", to the last space, and to a hard cut.
    Budgeted { max_chars: usize },
}

/// The classes of characters that a break point may follow.
#[derive(Clone, Copy, Debug, PartialEq, Eq, Structural)]
pub enum CharClass {
    /// `.` `?` `!` and newline.
    Terminator,
    /// `,` `;` `:` and `"`.
    Secondary,
    /// The space character.
    Space,
    /// The sentence marker `~` and newline.
    Marker,
}

pub const SENTENCE_MARKER: char = '~';

pub open spec fn in_class(c: char, k: CharClass) -> bool {
    match k {
        CharClass::Terminator => c == '.' || c == '?' || c == '!' || c == '\n',
        CharClass::Secondary => c == ',' || c == ';' || c == ':' || c == '"',
        CharClass::Space => c == ' ',
        CharClass::Marker => c == '~' || c == '\n',
    }
}

/// The index of the last character of class `k` among the first `n` of `s`.
pub open spec fn last_of(s: Seq<char>, n: nat, k: CharClass) -> Option<int>
    decreases n,
{
    if n == 0 {
        None
    } else if in_class(s[n - 1], k) {
        Some(n - 1)
    } else {
        last_of(s, (n - 1) as nat, k)
    }
}

/// The index of the first character of class `k` among the first `n` of `s`.
pub open spec fn first_of(s: Seq<char>, n: nat, k: CharClass) -> Option<int>
    decreases n,
{
    if n == 0 {
        None
    } else {
        match first_of(s, (n - 1) as nat, k) {
            Some(i) => Some(i),
            None => if in_class(s[n - 1], k) {
                Some(n - 1)
            } else {
                None
            },
        }
    }
}

pub open spec fn and_word() -> Seq<char> {
    seq![' ', 'a', 'n', 'd', ' ']
}

/// The start of the last occurrence of " and " that lies within the first `n`
/// characters of `s`.
pub open spec fn last_and(s: Seq<char>, n: nat) -> Option<int>
    decreases n,
{
    if n < 5 {
        None
    } else if s.subrange(n - 5, n as int) == and_word() {
        Some(n - 5)
    } else {
        last_and(s, (n - 1) as nat)
    }
}

/// The first of the candidates that exists.
pub open spec fn first_found(a: Option<int>, b: Option<int>, c: Option<int>, d: int) -> int {
    if a is Some {
        a->0
    } else if b is Some {
        b->0
    } else if c is Some {
        c->0
    } else {
        d
    }
}

/// Where a forced break is searched: before the last space among the first `max`
/// characters, or among all of them when there is none.
pub open spec fn forced_window(s: Seq<char>, max: nat) -> nat {
    match last_of(s, max, CharClass::Space) {
        Some(j) => j as nat,
        None => max,
    }
}

/// Where a forced break looks for " and ": up to and including the last space
/// among the first `max` characters, so that an " and " ending on that space
/// counts, or among all of them when there is none.
pub open spec fn forced_and_window(s: Seq<char>, max: nat) -> nat {
    match last_of(s, max, CharClass::Space) {
        Some(j) => (j + 1) as nat,
        None => max,
    }
}

/// The last resort of a forced break: the last space among the first `max`
/// characters, or else a hard cut after them (after one character at least).
pub open spec fn forced_fallback(s: Seq<char>, max: nat) -> int {
    match last_of(s, max, CharClass::Space) {
        Some(j) => j,
        None => if max == 0 {
            0
        } else {
            max - 1
        },
    }
}

/// The index of the character that ends the next utterance of `s`, if any.
pub open spec fn break_point(s: Seq<char>, policy: BreakPolicy) -> Option<int> {
    match policy {
        BreakPolicy::Marked => first_of(s, s.len(), CharClass::Marker),
        BreakPolicy::FirstTerminator => first_of(s, s.len(), CharClass::Terminator),
        BreakPolicy::Budgeted { max_chars } => if s.len() <= max_chars {
            last_of(s, s.len(), CharClass::Terminator)
        } else {
            let w = forced_window(s, max_chars as nat);
            Some(
                first_found(
                    last_of(s, w, CharClass::Terminator),
                    last_of(s, w, CharClass::Secondary),
                    last_and(s, forced_and_window(s, max_chars as nat)),
                    forced_fallback(s, max_chars as nat),
                ),
            )
        },
    }
}

pub open spec fn opt_int(o: Option<usize>) -> Option<int> {
    match o {
        Some(i) => Some(i as int),
        None => None,
    }
}

fn char_in_class(c: char, k: CharClass) -> (r: bool)
    ensures
        r == in_class(c, k),
{
    match k {
        CharClass::Terminator => c == '.' || c == '?' || c == '!' || c == '\n',
        CharClass::Secondary => c == ',' || c == ';' || c == ':' || c == '"',
        CharClass::Space => c == ' ',
        CharClass::Marker => c == '~' || c == '\n',
    }
}

/// The last character of class `k` among the first `n` of `s`.
pub fn rfind_class(s: &[char], n: usize, k: CharClass) -> (r: Option<usize>)
    requires
        n <= s@.len(),
    ensures
        opt_int(r) == last_of(s@, n as nat, k),
        r matches Some(i) ==> i < n && in_class(s@[i as int], k),
{
    let mut m: usize = n;
    while m > 0
        invariant
            m <= n <= s@.len(),
            last_of(s@, n as nat, k) == last_of(s@, m as nat, k),
        decreases m,
    {
        if char_in_class(s[m - 1], k) {
            return Some(m - 1);
        }
        m = m - 1;
    }
    None
}

/// The first character of class `k` among the first `n` of `s`.
pub fn find_class(s: &[char], n: usize, k: CharClass) -> (r: Option<usize>)
    requires
        n <= s@.len(),
    ensures
        opt_int(r) == first_of(s@, n as nat, k),
{
    let mut m: usize = 0;
    while m < n
        invariant
            m <= n <= s@.len(),
            first_of(s@, m as nat, k) is None,
        decreases n - m,
    {
        if char_in_class(s[m], k) {
            proof {
                lemma_first_of_stable(s@, (m + 1) as nat, n as nat, k);
            }
            return Some(m);
        }
        m = m + 1;
    }
    None
}

proof fn lemma_first_of_stable(s: Seq<char>, m: nat, n: nat, k: CharClass)
    requires
        m <= n,
        first_of(s, m, k) is Some,
    ensures
        first_of(s, n, k) == first_of(s, m, k),
    decreases n - m,
{
    if m < n {
        lemma_first_of_stable(s, m, (n - 1) as nat, k);
    }
}

/// The start of the last " and " within the first `n` characters of `s`.
pub fn rfind_and(s: &[char], n: usize) -> (r: Option<usize>)
    requires
        n <= s@.len(),
    ensures
        opt_int(r) == last_and(s@, n as nat),
{
    let mut m: usize = n;
    while m >= 5
        invariant
            m <= n <= s@.len(),
            last_and(s@, n as nat) == last_and(s@, m as nat),
        decreases m,
    {
        let found = s[m - 5] == ' ' && s[m - 4] == 'a' && s[m - 3] == 'n' && s[m - 2] == 'd'
            && s[m - 1] == ' ';
        proof {
            let sub = s@.subrange(m - 5, m as int);
            if found {
                assert(sub =~= and_word());
            } else {
                assert(sub != and_word()) by {
                    if sub == and_word() {
                        assert(sub[0] == and_word()[0]);
                        assert(sub[1] == and_word()[1]);
                        assert(sub[2] == and_word()[2]);
                        assert(sub[3] == and_word()[3]);
                        assert(sub[4] == and_word()[4]);
                    }
                }
            }
        }
        if found {
            return Some(m - 5);
        }
        m = m - 1;
    }
    None
}

/// The index of the character that ends the next utterance of `s` under
/// `policy`, or `None` while more text is needed.
pub fn break_in(s: &[char], policy: BreakPolicy) -> (r: Option<usize>)
    ensures
        opt_int(r) == break_point(s@, policy),
{
    match policy {
        BreakPolicy::Marked => find_class(s, s.len(), CharClass::Marker),
        BreakPolicy::FirstTerminator => find_class(s, s.len(), CharClass::Terminator),
        BreakPolicy::Budgeted { max_chars } => {
            if s.len() <= max_chars {
                return rfind_class(s, s.len(), CharClass::Terminator);
            }
            let (window, and_window, fallback) = match rfind_class(
                s,
                max_chars,
                CharClass::Space,
            ) {
                Some(j) => (j, j + 1, j),
                None => (max_chars, max_chars, if max_chars == 0 { 0 } else { max_chars - 1 }),
            };
            if let Some(i) = rfind_class(s, window, CharClass::Terminator) {
                return Some(i);
            }
            if let Some(i) = rfind_class(s, window, CharClass::Secondary) {
                return Some(i);
            }
            if let Some(i) = rfind_and(s, and_window) {
                return Some(i);
            }
            Some(fallback)
        },
    }
}

/// The index, counted in characters, of the character that ends the next
/// utterance of `text` under `policy`, or `None` while more text is needed.
pub fn find_break(text: &str, policy: BreakPolicy) -> (r: Option<usize>)
    ensures
        opt_int(r) == break_point(text@, policy),
{
    let chars = chars_of(text);
    break_in(chars.as_slice(), policy)
}

proof fn lemma_last_of_range(s: Seq<char>, n: nat, k: CharClass)
    ensures
        last_of(s, n, k) matches Some(j) ==> 0 <= j < n,
    decreases n,
{
    if n > 0 {
        lemma_last_of_range(s, (n - 1) as nat, k);
    }
}

proof fn lemma_first_of_range(s: Seq<char>, n: nat, k: CharClass)
    ensures
        first_of(s, n, k) matches Some(j) ==> 0 <= j < n,
    decreases n,
{
    if n > 0 {
        lemma_first_of_range(s, (n - 1) as nat, k);
    }
}

proof fn lemma_last_and_range(s: Seq<char>, n: nat)
    ensures
        last_and(s, n) matches Some(j) ==> 0 <= j && j + 5 <= n,
    decreases n,
{
    if n >= 5 {
        lemma_last_and_range(s, (n - 1) as nat);
    }
}

/// A break point lies inside the text; once the text outgrows the budget there
/// is always one, within the budget (within its first character at least).
pub proof fn lemma_break_point_range(s: Seq<char>, policy: BreakPolicy)
    ensures
        break_point(s, policy) matches Some(i) ==> 0 <= i < s.len(),
        policy matches BreakPolicy::Budgeted { max_chars } ==> {
            &&& break_point(s, policy) matches Some(i) ==> i < max_chars || i == 0
            &&& s.len() > max_chars ==> break_point(s, policy) is Some
        },
{
    match policy {
        BreakPolicy::Marked => lemma_first_of_range(s, s.len(), CharClass::Marker),
        BreakPolicy::FirstTerminator => lemma_first_of_range(s, s.len(), CharClass::Terminator),
        BreakPolicy::Budgeted { max_chars } => {
            lemma_last_of_range(s, s.len(), CharClass::Terminator);
            lemma_last_of_range(s, max_chars as nat, CharClass::Space);
            let w = forced_window(s, max_chars as nat);
            lemma_last_of_range(s, w, CharClass::Terminator);
            lemma_last_of_range(s, w, CharClass::Secondary);
            lemma_last_and_range(s, forced_and_window(s, max_chars as nat));
        },
    }
}

/// Splits `s` at its break points: the utterances found, in order, and the text
/// that is left over.
pub open spec fn segment(s: Seq<char>, policy: BreakPolicy) -> (Seq<Seq<char>>, Seq<char>)
    decreases s.len(),
{
    match break_point(s, policy) {
        Some(i) => if 0 <= i < s.len() {
            let next = segment(s.subrange(i + 1, s.len() as int), policy);
            (seq![s.subrange(0, i + 1)] + next.0, next.1)
        } else {
            (seq![], s)
        },
        None => (seq![], s),
    }
}

/// Turns a stream of text fragments into utterances, cutting at break points
/// as soon as they arrive.
pub struct Segmenter {
    buffer: Vec<char>,
    policy: BreakPolicy,
}

impl Segmenter {
    /// The text received and not yet handed out.
    pub closed spec fn pending(&self) -> Seq<char> {
        self.buffer@
    }

    pub closed spec fn policy_spec(&self) -> BreakPolicy {
        self.policy
    }

    /// Under a budget, what is left over never exceeds it.
    pub closed spec fn wf(&self) -> bool {
        self.policy matches BreakPolicy::Budgeted { max_chars } ==> self.buffer@.len() <= max_chars
    }

    pub fn new(policy: BreakPolicy) -> (r: Segmenter)
        ensures
            r.wf(),
            r.pending() == Seq::<char>::empty(),
            r.policy_spec() == policy,
    {
        Segmenter { buffer: Vec::new(), policy }
    }

    pub fn policy(&self) -> (r: BreakPolicy)
        ensures
            r == self.policy_spec(),
    {
        self.policy
    }

    /// Appends `token` and hands out every utterance that is complete.
    pub fn push(&mut self, token: &str) -> (r: Vec<String>)
        requires
            old(self).wf(),
        ensures
            final(self).wf(),
            final(self).policy_spec() == old(self).policy_spec(),
            views(r@) == segment(old(self).pending() + token@, old(self).policy_spec()).0,
            final(self).pending() == segment(old(self).pending() + token@, old(self).policy_spec()).1,
            old(self).policy_spec() matches BreakPolicy::Budgeted { max_chars } ==> (max_chars > 0
                ==> forall|k: int| 0 <= k < r@.len() ==> (#[trigger] r@[k])@.len() <= max_chars),
    {
        let chars = chars_of(token);
        let mut i: usize = 0;
        while i < chars.len()
            invariant
                i <= chars@.len(),
                self.policy == old(self).policy,
                self.buffer@ == old(self).buffer@ + chars@.subrange(0, i as int),
            decreases chars@.len() - i,
        {
            self.buffer.push(chars[i]);
            i = i + 1;
        }
        assert(chars@.subrange(0, i as int) =~= chars@);
        let ghost total = self.buffer@;
        assert(total == old(self).pending() + token@);
        let policy = self.policy;
        let mut out: Vec<String> = Vec::new();
        loop
            invariant
                self.policy == policy,
                policy == old(self).policy,
                total == old(self).buffer@ + token@,
                views(out@) + segment(self.buffer@, policy).0 == segment(total, policy).0,
                segment(self.buffer@, policy).1 == segment(total, policy).1,
            decreases self.buffer@.len(),
        {
            proof {
                lemma_break_point_range(self.buffer@, policy);
            }
            match break_in(self.buffer.as_slice(), policy) {
                Some(i) => {
                    let ghost before = self.buffer@;
                    let n = self.buffer.len();
                    assert(i < n);
                    let rest = self.buffer.split_off(i + 1);
                    let utterance = string_from_chars(self.buffer.as_slice());
                    proof {
                        assert(views(out@.push(utterance)) =~= views(out@).push(utterance@));
                        assert(views(out@).push(utterance@) + segment(rest@, policy).0 =~= views(
                            out@,
                        ) + segment(before, policy).0);
                    }
                    out.push(utterance);
                    self.buffer = rest;
                },
                None => {
                    proof {
                        assert(segment(self.buffer@, policy).0 =~= Seq::<Seq<char>>::empty());
                        assert(views(out@) + Seq::<Seq<char>>::empty() =~= views(out@));
                        if let BreakPolicy::Budgeted { max_chars } = policy {
                            assert(self.buffer@.len() <= max_chars);
                            if max_chars > 0 {
                                lemma_segment_within_budget(total, max_chars);
                                assert forall|k: int| 0 <= k < out@.len() implies (#[trigger] out@[
                                    k])@.len() <= max_chars by {
                                    assert(views(out@)[k] == out@[k]@);
                                }
                            }
                        }
                    }
                    return out;
                },
            }
        }
    }

    /// Hands out whatever is left over, possibly nothing, and empties the buffer.
    pub fn flush(&mut self) -> (r: String)
        requires
            old(self).wf(),
        ensures
            final(self).wf(),
            final(self).policy_spec() == old(self).policy_spec(),
            r@ == old(self).pending(),
            old(self).pending().len() == 0 ==> r@.len() == 0,
            old(self).policy_spec() matches BreakPolicy::Budgeted { max_chars } ==> r@.len()
                <= max_chars,
            final(self).pending() == Seq::<char>::empty(),
    {
        let r = string_from_chars(self.buffer.as_slice());
        self.buffer = Vec::new();
        r
    }
}

/// Pushes `tokens` one after another into a segmenter that holds `pending`:
/// the utterances handed out, in order, and the text left over.
pub open spec fn feed(pending: Seq<char>, tokens: Seq<Seq<char>>, policy: BreakPolicy) -> (
    Seq<Seq<char>>,
    Seq<char>,
)
    decreases tokens.len(),
{
    if tokens.len() == 0 {
        (seq![], pending)
    } else {
        let first = segment(pending + tokens[0], policy);
        let others = feed(first.1, tokens.drop_first(), policy);
        (first.0 + others.0, others.1)
    }
}

/// Segmenting loses and reorders nothing: the utterances, joined, followed by
/// the text left over, give back the text.
pub proof fn lemma_segment_lossless(s: Seq<char>, policy: BreakPolicy)
    ensures
        segment(s, policy).0.flatten() + segment(s, policy).1 == s,
    decreases s.len(),
{
    lemma_break_point_range(s, policy);
    if let Some(i) = break_point(s, policy) {
        let head = s.subrange(0, i + 1);
        let rest = s.subrange(i + 1, s.len() as int);
        lemma_segment_lossless(rest, policy);
        let next = segment(rest, policy);
        let us = seq![head] + next.0;
        assert(us.drop_first() =~= next.0);
        assert(us.flatten() == head + next.0.flatten());
        assert(head + next.0.flatten() + next.1 =~= head + (next.0.flatten() + next.1));
        assert(head + rest =~= s);
    } else {
        assert(segment(s, policy).0.flatten() =~= Seq::<char>::empty());
        assert(Seq::<char>::empty() + s =~= s);
    }
}

/// For any sequence of tokens, the utterances handed out while they are pushed,
/// joined, followed by what a final flush hands out, give back all the tokens
/// joined, in order.
pub proof fn lemma_feed_lossless(pending: Seq<char>, tokens: Seq<Seq<char>>, policy: BreakPolicy)
    ensures
        feed(pending, tokens, policy).0.flatten() + feed(pending, tokens, policy).1 == pending
            + tokens.flatten(),
    decreases tokens.len(),
{
    if tokens.len() == 0 {
        assert(feed(pending, tokens, policy).0.flatten() =~= Seq::<char>::empty());
        assert(tokens.flatten() =~= Seq::<char>::empty());
        assert(Seq::<char>::empty() + pending =~= pending + Seq::<char>::empty());
    } else {
        let first = segment(pending + tokens[0], policy);
        let others = feed(first.1, tokens.drop_first(), policy);
        lemma_segment_lossless(pending + tokens[0], policy);
        lemma_feed_lossless(first.1, tokens.drop_first(), policy);
        lemma_flatten_concat(first.0, others.0);
        assert(tokens.flatten() == tokens[0] + tokens.drop_first().flatten());
        assert(first.0.flatten() + others.0.flatten() + others.1 =~= first.0.flatten() + (first.1
            + tokens.drop_first().flatten()));
        let a = first.0.flatten();
        let d = tokens.drop_first().flatten();
        assert(a + (first.1 + d) =~= (a + first.1) + d);
        assert((pending + tokens[0]) + d =~= pending + (tokens[0] + d));
    }
}

/// Under a budget of `max_chars` characters, no utterance and no left-over text
/// is longer than the budget.
pub proof fn lemma_segment_within_budget(s: Seq<char>, max_chars: usize)
    requires
        max_chars > 0,
    ensures
        forall|k: int|
            0 <= k < segment(s, BreakPolicy::Budgeted { max_chars }).0.len() ==> (#[trigger] segment(
                s,
                BreakPolicy::Budgeted { max_chars },
            ).0[k]).len() <= max_chars,
        segment(s, BreakPolicy::Budgeted { max_chars }).1.len() <= max_chars,
    decreases s.len(),
{
    let policy = BreakPolicy::Budgeted { max_chars };
    lemma_break_point_range(s, policy);
    if let Some(i) = break_point(s, policy) {
        let rest = s.subrange(i + 1, s.len() as int);
        lemma_segment_within_budget(rest, max_chars);
        let next = segment(rest, policy);
        let us = seq![s.subrange(0, i + 1)] + next.0;
        assert forall|k: int| 0 <= k < us.len() implies (#[trigger] us[k]).len() <= max_chars by {
            if k > 0 {
                assert(us[k] == next.0[k - 1]);
            }
        }
    }
}

/// The fallback order of a forced break: when the searched window holds no
/// sentence terminator but holds secondary punctuation, the break comes after the
/// last such mark, whatever later tiers would offer.
pub proof fn lemma_forced_break_prefers_secondary(s: Seq<char>, max_chars: usize, j: int)
    requires
        s.len() > max_chars,
        last_of(s, forced_window(s, max_chars as nat), CharClass::Terminator) is None,
        last_of(s, forced_window(s, max_chars as nat), CharClass::Secondary) == Some(j),
    ensures
        break_point(s, BreakPolicy::Budgeted { max_chars }) == Some(j),
{
}

/// Once the text is longer than a budget above zero, a break always exists and
/// falls inside the first `max_chars` characters: the forced utterance never
/// exceeds the budget.
pub proof fn lemma_forced_break_within_budget(s: Seq<char>, max_chars: usize)
    requires
        0 < max_chars < s.len(),
    ensures
        break_point(s, BreakPolicy::Budgeted { max_chars }) matches Some(i) && 0 <= i
            < max_chars,
{
    lemma_break_point_range(s, BreakPolicy::Budgeted { max_chars });
}

} // verus!
