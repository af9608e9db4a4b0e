//! Commands from batches of words: the words of an input are packed
//! greedily into groups, and each group fills the placeholder of one command.

use crate::executor::{started, Executor};
use crate::template::{expand, expand_each, validate, validated, ConfigError};
use crate::text::{
    byte_len, count_matches, is_word, join_spaced, lemma_byte_len_concat, lemma_byte_len_space,
    lemma_replaced_len, lemma_words, lemma_words_of_joined, replace_all, split_whitespace,
    words,
};
use vstd::prelude::*;
use vstd::string::StringExecFns;

verus! {

/// The number of bytes under which a batch and its template stay.
pub const BYTE_BUDGET: usize = 256;

/// The acceptance test: whether `token` may join the batch `acc`. It counts
/// the token, one separator, the batch so far and the whole template, and the
/// sum must stay under `budget`. The placeholder takes no part in it, so the
/// test leaves headroom rather than measuring the expansion.
pub open spec fn fits(token: Seq<char>, acc: Seq<char>, template: Seq<char>, budget: int) -> bool {
    byte_len(token) + 1 + byte_len(acc) + byte_len(template) < budget
}

/// The batch `acc` with `token` added: after a space, unless it is the first.
pub open spec fn extended(acc: Seq<char>, token: Seq<char>) -> Seq<char> {
    if acc.len() == 0 {
        token
    } else {
        acc + seq![' '] + token
    }
}

/// The batches that `tokens` give when `acc` is the batch under way. A token
/// that fits joins it; one that does not ends it and starts the next. A batch
/// that was ended is never changed again. At the end of the input the batch
/// under way is kept unless it is empty.
pub open spec fn batches_after(
    tokens: Seq<Seq<char>>,
    acc: Seq<char>,
    template: Seq<char>,
    budget: int,
) -> Seq<Seq<char>>
    decreases tokens.len(),
{
    if tokens.len() == 0 {
        if acc.len() > 0 {
            seq![acc]
        } else {
            seq![]
        }
    } else if fits(tokens[0], acc, template, budget) {
        batches_after(tokens.skip(1), extended(acc, tokens[0]), template, budget)
    } else {
        seq![acc] + batches_after(tokens.skip(1), tokens[0], template, budget)
    }
}

/// The batches of `tokens` for `template` under `budget`.
pub open spec fn batches(tokens: Seq<Seq<char>>, template: Seq<char>, budget: int) -> Seq<
    Seq<char>,
> {
    batches_after(tokens, seq![], template, budget)
}

/// `first` followed by `rest`, joined by single spaces.
proof fn lemma_join_first(first: Seq<char>, rest: Seq<Seq<char>>)
    ensures
        join_spaced(seq![first] + rest) == if rest.len() == 0 {
            first
        } else {
            first + seq![' '] + join_spaced(rest)
        },
{
    assert((seq![first] + rest).skip(1) =~= rest);
}

/// The tokens of a stream, with the batch under way in front of them where
/// there is one.
pub open spec fn pending(acc: Seq<char>, tokens: Seq<Seq<char>>) -> Seq<Seq<char>> {
    if acc.len() > 0 {
        seq![acc] + tokens
    } else {
        tokens
    }
}

/// What holds of the batches that follow a batch under way, where every
/// token is non-empty and fits into an empty batch, and the batch under way
/// leaves room for the template: each batch is non-empty and leaves that
/// room too, and the batches joined by spaces read as the batch under way and
/// the tokens do.
proof fn lemma_batches_after(
    tokens: Seq<Seq<char>>,
    acc: Seq<char>,
    template: Seq<char>,
    budget: int,
)
    requires
        forall|i: int| 0 <= i < tokens.len() ==> (#[trigger] tokens[i]).len() > 0,
        forall|i: int|
            0 <= i < tokens.len() ==> fits(#[trigger] tokens[i], seq![], template, budget),
        acc.len() > 0 ==> byte_len(acc) + byte_len(template) < budget,
    ensures
        forall|j: int|
            0 <= j < batches_after(tokens, acc, template, budget).len() ==> {
                let batch = #[trigger] batches_after(tokens, acc, template, budget)[j];
                batch.len() > 0 && byte_len(batch) + byte_len(template) < budget
            },
        join_spaced(batches_after(tokens, acc, template, budget)) == join_spaced(
            pending(acc, tokens),
        ),
        acc.len() > 0 ==> batches_after(tokens, acc, template, budget).len() > 0,
    decreases tokens.len(),
{
    let all = batches_after(tokens, acc, template, budget);
    if tokens.len() > 0 {
        let token = tokens[0];
        let rest = tokens.skip(1);
        assert forall|i: int| 0 <= i < rest.len() implies (#[trigger] rest[i]).len() > 0 && fits(
            rest[i],
            seq![],
            template,
            budget,
        ) by {
            assert(rest[i] == tokens[i + 1]);
        }
        lemma_join_first(token, rest);
        if fits(token, acc, template, budget) {
            let next = extended(acc, token);
            if acc.len() > 0 {
                lemma_byte_len_concat(acc, seq![' ']);
                lemma_byte_len_concat(acc + seq![' '], token);
                lemma_byte_len_space();
                lemma_join_first(acc, tokens);
            }
            lemma_batches_after(rest, next, template, budget);
            lemma_join_first(next, rest);
        } else {
            // an empty batch takes every token, so this one was not empty
            assert(acc.len() > 0);
            let later = batches_after(rest, token, template, budget);
            lemma_batches_after(rest, token, template, budget);
            assert forall|j: int| 0 <= j < all.len() implies {
                let batch = #[trigger] all[j];
                batch.len() > 0 && byte_len(batch) + byte_len(template) < budget
            } by {
                if j > 0 {
                    assert(all[j] == later[j - 1]);
                }
            }
            lemma_join_first(acc, later);
            lemma_join_first(acc, tokens);
        }
    }
}

/// Batching keeps every expansion under the budget and loses no token.
///
/// Take tokens that are non-empty and of which each alone would be accepted
/// into an empty batch, and a template in which a non-empty placeholder
/// occurs at most once. Then the expansion of the template with any batch is
/// shorter than the budget, in bytes, and the batches joined by single spaces
/// are the tokens joined by single spaces: every token is in exactly one
/// batch, in the order of the input.
///
/// Where the placeholder occurs more than once, each occurrence takes a copy
/// of the batch, and the expansion may pass the budget: the acceptance test
/// counts the batch once.
pub proof fn lemma_batches_fit_and_keep_tokens(
    tokens: Seq<Seq<char>>,
    template: Seq<char>,
    placeholder: Seq<char>,
    budget: int,
)
    requires
        forall|i: int| 0 <= i < tokens.len() ==> (#[trigger] tokens[i]).len() > 0,
        forall|i: int|
            0 <= i < tokens.len() ==> fits(#[trigger] tokens[i], seq![], template, budget),
        placeholder.len() > 0,
        count_matches(template, placeholder) <= 1,
    ensures
        forall|j: int|
            0 <= j < batches(tokens, template, budget).len() ==> byte_len(
                replace_all(template, placeholder, #[trigger] batches(tokens, template, budget)[j]),
            ) < budget,
        join_spaced(batches(tokens, template, budget)) == join_spaced(tokens),
{
    let all = batches(tokens, template, budget);
    lemma_batches_after(tokens, seq![], template, budget);
    assert forall|j: int| 0 <= j < all.len() implies byte_len(
        replace_all(template, placeholder, #[trigger] all[j]),
    ) < budget by {
        lemma_replaced_len(template, placeholder, all[j]);
        let k = count_matches(template, placeholder) as int;
        let p = byte_len(placeholder) as int;
        let b = byte_len(all[j]) as int;
        assert(k * p <= p && k * b <= b) by (nonlinear_arith)
            requires
                k == 0 || k == 1,
                p >= 0,
                b >= 0,
        ;
        assert(k * b - k * p <= b) by (nonlinear_arith)
            requires
                k == 0 || k == 1,
                p >= 0,
                b >= 0,
        ;
    }
}

/// The number of bytes of `s`.
fn byte_length(s: &str) -> (n: usize)
    ensures
        n == byte_len(s@),
{
    s.as_bytes().len()
}

/// Packs `tokens` into batches for `template`: each batch is a run of
/// consecutive tokens joined by single spaces. The placeholder plays no part
/// in the size test.
pub fn collect_batches(
    tokens: &Vec<String>,
    template: &str,
    placeholder: &str,
    byte_budget: usize,
) -> (out: Vec<String>)
    ensures
        out.deep_view() == batches(tokens.deep_view(), template@, byte_budget as int),
{
    let ghost all = tokens.deep_view();
    let mut out: Vec<String> = Vec::new();
    let mut acc = String::new();
    let mut i: usize = 0;
    let template_len = byte_length(template);
    proof {
        reveal_strlit(" ");
        assert(all.skip(0) =~= all);
    }
    while i < tokens.len()
        invariant
            i <= tokens.len(),
            all == tokens.deep_view(),
            template_len == byte_len(template@),
            " "@ == seq![' '],
            batches(all, template@, byte_budget as int) == out.deep_view() + batches_after(
                all.skip(i as int),
                acc@,
                template@,
                byte_budget as int,
            ),
        decreases tokens.len() - i,
    {
        let token = tokens[i].as_str();
        let ghost rest = all.skip(i as int);
        let ghost before = out.deep_view();
        let ghost batch = acc@;
        assert(rest.skip(1) =~= all.skip(i + 1));
        let needed: u128 = byte_length(token) as u128 + 1 + byte_length(acc.as_str()) as u128
            + template_len as u128;
        if needed < byte_budget as u128 {
            if !acc.as_str().is_empty() {
                acc.append(" ");
            }
            acc.append(token);
        } else {
            out.push(acc);
            acc = token.to_owned();
        }
        i += 1;
    }
    if !acc.as_str().is_empty() {
        let ghost before = out.deep_view();
        let ghost batch = acc@;
        out.push(acc);
    }
    out
}

/// The commands for the words of `input`: `template` with each batch of the
/// words in the place of `placeholder`.
pub open spec fn batch_commands(
    template: Seq<char>,
    placeholder: Seq<char>,
    input: Seq<char>,
) -> Seq<Seq<char>> {
    expand_each(template, placeholder, batches(words(input), template, BYTE_BUDGET as int))
}

/// The commands of an input stay under the budget, and its words are kept.
///
/// Take an input of which each word alone would be accepted into an empty
/// batch, and a template in which a non-empty placeholder occurs at most
/// once. Then each command that is generated for the input is shorter than
/// the budget, in bytes. And the batches joined by single spaces are the
/// words of the input joined by single spaces, so that the words read in
/// the batches, one batch after the other, are the words of the input.
pub proof fn lemma_commands_fit_and_keep_words(
    template: Seq<char>,
    placeholder: Seq<char>,
    input: Seq<char>,
)
    requires
        forall|i: int|
            0 <= i < words(input).len() ==> fits(
                #[trigger] words(input)[i],
                seq![],
                template,
                BYTE_BUDGET as int,
            ),
        placeholder.len() > 0,
        count_matches(template, placeholder) <= 1,
    ensures
        forall|j: int|
            0 <= j < batch_commands(template, placeholder, input).len() ==> byte_len(
                #[trigger] batch_commands(template, placeholder, input)[j],
            ) < BYTE_BUDGET,
        join_spaced(batches(words(input), template, BYTE_BUDGET as int)) == join_spaced(
            words(input),
        ),
        words(join_spaced(batches(words(input), template, BYTE_BUDGET as int))) == words(input),
{
    let tokens = words(input);
    lemma_words(input);
    lemma_words_of_joined(tokens);
    assert forall|i: int| 0 <= i < tokens.len() implies (#[trigger] tokens[i]).len() > 0 by {
        assert(is_word(tokens[i]));
    }
    lemma_batches_fit_and_keep_tokens(tokens, template, placeholder, BYTE_BUDGET as int);
}

/// Generates the commands for the words of `input`: the words are packed
/// into batches under the byte budget, and each batch fills `replstr` in one
/// copy of `command`. An input without a word gives no command.
pub fn _cmdlist(command: &str, replstr: &str, input: &str) -> (list: Vec<String>)
    ensures
        list.deep_view() == batch_commands(command@, replstr@, input@),
{
    let tokens = split_whitespace(input);
    let groups = collect_batches(&tokens, command, replstr, BYTE_BUDGET);
    let mut list: Vec<String> = Vec::new();
    let mut i: usize = 0;
    while i < groups.len()
        invariant
            i <= groups.len(),
            list.len() == i,
            forall|k: int|
                0 <= k < i ==> (#[trigger] list[k])@ == replace_all(
                    command@,
                    replstr@,
                    groups[k]@,
                ),
        decreases groups.len() - i,
    {
        list.push(expand(command, replstr, groups[i].as_str()));
        i += 1;
    }
    list
}

/// Prepares the run of `command` over the words of `input`, which is read
/// in full before any command is generated. An empty `replstr`, or one that
/// does not occur in `command`, is refused, and nothing is generated.
pub fn xargs(dryrun: bool, verbose: bool, replstr: &str, command: &str, input: &str) -> (run:
    Result<Executor, ConfigError>)
    ensures
        match validated(command@, replstr@) {
            Err(e) => run matches Err(err) && err == e,
            Ok(_) => run matches Ok(executor) && executor@ == started(
                batch_commands(command@, replstr@, input@),
                dryrun,
                verbose,
            ),
        },
{
    match validate(command, replstr) {
        Err(e) => Err(e),
        Ok(_) => Ok(Executor::new(_cmdlist(command, replstr, input), dryrun, verbose)),
    }
}

} // verus!
