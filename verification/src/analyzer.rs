//! The semantic analyzer: splits the token stream into logical lines,
//! classifies each line by its first token, drives it through the matching
//! grammar, and materializes the ordered list of test suites. Any lexical,
//! syntactic or option error aborts the whole parse; no partial suite list
//! is ever returned beside an error.

use vstd::prelude::*;
use vstd::slice::slice_subrange;
use crate::codec::TextFormat;
use crate::error::{Error, ErrorView};
use crate::fsm::{FiniteStateMachine, run_from};
use crate::grammar::{
    Grammar, group_failure_error, group_state_machine, map_group_failure, map_test_failure,
    test_failure_error, test_state_machine,
};
use crate::model::{
    TestCase, TestCaseSettings, TestCaseView, TestSuite, TestSuiteView, default_test_settings,
};
use crate::string_util::{
    get_boolean_value, get_time_value, get_u32_value, parsed_boolean, parsed_time, parsed_u32,
    str_eq,
};
use crate::token::{Token, TokenKind, TokenView, kinds_of, view_kinds, views_of, lemma_views_push};

verus! {

/// The views of a sequence of token lines.
pub open spec fn lines_views(lines: Seq<Vec<Token>>) -> Seq<Seq<TokenView>> {
    Seq::new(lines.len(), |i: int| views_of(lines[i]@))
}

/// The views of a sequence of test suites.
pub open spec fn suites_views(suites: Seq<TestSuite>) -> Seq<TestSuiteView> {
    Seq::new(suites.len(), |i: int| suites[i]@)
}

/// The meaning of a format specifier token: which radix its letter names.
/// Any other text rejects the parse at the token's position.
pub open spec fn format_of(t: TokenView) -> Result<TextFormat, ErrorView> {
    if t.value == "b"@ {
        Ok(TextFormat::Binary)
    } else if t.value == "o"@ {
        Ok(TextFormat::Octal)
    } else if t.value == "d"@ {
        Ok(TextFormat::Decimal)
    } else if t.value == "h"@ {
        Ok(TextFormat::Hex)
    } else {
        Err(ErrorView::UnknownError(t.line, t.column))
    }
}

/// The effect of one `name=value` option on the settings: `ignore-case`
/// takes a boolean, `delay` and `timeout` a time, `repeat` a number; a
/// value that does not parse rejects with the expected kind at the value's
/// position, and any other name rejects as an unknown option at the
/// name's position.
pub open spec fn option_applied(
    name_tok: TokenView,
    value_tok: TokenView,
    settings: TestCaseSettings,
) -> Result<TestCaseSettings, ErrorView> {
    if name_tok.value == "ignore-case"@ {
        match parsed_boolean(value_tok.value) {
            Some(b) => Ok(TestCaseSettings { ignore_case: b, ..settings }),
            None => Err(ErrorView::InvalidOptionValue("boolean"@, value_tok.line, value_tok.column)),
        }
    } else if name_tok.value == "delay"@ {
        match parsed_time(value_tok.value) {
            Some(t) => Ok(TestCaseSettings { delay: Some(t), ..settings }),
            None => Err(ErrorView::InvalidOptionValue("time"@, value_tok.line, value_tok.column)),
        }
    } else if name_tok.value == "timeout"@ {
        match parsed_time(value_tok.value) {
            Some(t) => Ok(TestCaseSettings { timeout: t, ..settings }),
            None => Err(ErrorView::InvalidOptionValue("time"@, value_tok.line, value_tok.column)),
        }
    } else if name_tok.value == "repeat"@ {
        match parsed_u32(value_tok.value) {
            Some(n) => Ok(TestCaseSettings { repeat: n, ..settings }),
            None => Err(ErrorView::InvalidOptionValue("number"@, value_tok.line, value_tok.column)),
        }
    } else {
        Err(ErrorView::UnknownTestOption(name_tok.value, name_tok.line, name_tok.column))
    }
}

/// Folds the `, name = value` option blocks from `idx` on into the
/// settings; stops before the token that ends the header and yields the
/// index just past it.
pub open spec fn test_options_from(
    line: Seq<TokenView>,
    idx: int,
    settings: TestCaseSettings,
) -> Result<(TestCaseSettings, int), ErrorView>
    decreases line.len() - idx,
{
    if idx < 0 || idx >= line.len() || line[idx].kind != TokenKind::ContentSeparator {
        Ok((settings, idx + 1))
    } else if idx + 3 >= line.len() {
        Err(ErrorView::UnknownError(line[idx].line, line[idx].column))
    } else {
        match option_applied(line[idx + 1], line[idx + 3], settings) {
            Ok(s2) => test_options_from(line, idx + 4, s2),
            Err(e) => Err(e),
        }
    }
}

/// The output content and the finished test, read at `idx`.
pub open spec fn extracted_output(
    line: Seq<TokenView>,
    idx: int,
    name: Seq<char>,
    input: Seq<char>,
    settings: TestCaseSettings,
) -> Result<TestCaseView, ErrorView> {
    if idx >= line.len() {
        Err(ErrorView::UnknownError(line[0].line, line[0].column))
    } else {
        Ok(TestCaseView { name, input, output: line[idx].value, settings })
    }
}

/// The input content at `idx`, the skipped direction separator, and then
/// the optional output format specifier.
pub open spec fn extracted_input(
    line: Seq<TokenView>,
    idx: int,
    name: Seq<char>,
    settings: TestCaseSettings,
) -> Result<TestCaseView, ErrorView> {
    if idx >= line.len() {
        Err(ErrorView::UnknownError(line[0].line, line[0].column))
    } else {
        let input = line[idx].value;
        let j = idx + 2;
        if j < line.len() && line[j].kind == TokenKind::FormatSpecifier {
            match format_of(line[j]) {
                Ok(f) => extracted_output(
                    line,
                    j + 1,
                    name,
                    input,
                    TestCaseSettings { output_format: f, ..settings },
                ),
                Err(e) => Err(e),
            }
        } else {
            extracted_output(line, j, name, input, settings)
        }
    }
}

/// The optional input format specifier at `idx` and then the rest of the
/// test body.
pub open spec fn extracted_body(
    line: Seq<TokenView>,
    idx: int,
    name: Seq<char>,
    settings: TestCaseSettings,
) -> Result<TestCaseView, ErrorView> {
    if idx < line.len() && line[idx].kind == TokenKind::FormatSpecifier {
        match format_of(line[idx]) {
            Ok(f) => extracted_input(
                line,
                idx + 1,
                name,
                TestCaseSettings { input_format: f, ..settings },
            ),
            Err(e) => Err(e),
        }
    } else {
        extracted_input(line, idx, name, settings)
    }
}

/// The test a grammar-accepted line stands for: the positional walk over
/// the optional name and options header, the input, the separator and the
/// output, with default settings where no option names them.
pub open spec fn extracted_test(line: Seq<TokenView>) -> Result<TestCaseView, ErrorView> {
    if line.len() == 0 {
        Err(ErrorView::UnknownError(0, 0))
    } else if line[0].kind == TokenKind::LeftTestParenthesis {
        if line.len() <= 1 {
            Err(ErrorView::UnknownError(line[0].line, line[0].column))
        } else {
            let name = line[1].value;
            match test_options_from(line, 2, default_test_settings()) {
                Ok((settings, idx)) => extracted_body(line, idx, name, settings),
                Err(e) => Err(e),
            }
        }
    } else {
        extracted_body(line, 0, Seq::<char>::empty(), default_test_settings())
    }
}

/// What a test-case line means: a grammar failure maps to its diagnostic
/// at the failing token's position; an accepted line is extracted.
pub open spec fn analysed_test(line: Seq<TokenView>) -> Result<TestCaseView, ErrorView> {
    let (st, ridx) = run_from(Grammar::Test, 1, view_kinds(line), 0);
    if ridx == -1 && st == 9 {
        extracted_test(line)
    } else {
        let ftok = line[
            if ridx >= 0 {
                ridx
            } else {
                line.len() - 1
            }
        ];
        Err(test_failure_error(st, ftok.line, ftok.column))
    }
}

/// What a group-header line means: an empty suite named by its identifier,
/// or the grammar failure's diagnostic at the failing token's position.
pub open spec fn analysed_group(line: Seq<TokenView>) -> Result<TestSuiteView, ErrorView> {
    let (st, ridx) = run_from(Grammar::Group, 1, view_kinds(line), 0);
    if ridx == -1 && st == 4 {
        if line.len() <= 1 {
            Err(ErrorView::UnknownError(0, 0))
        } else {
            Ok(TestSuiteView { name: line[1].value, tests: seq![] })
        }
    } else {
        let ftok = line[
            if ridx >= 0 {
                ridx
            } else {
                line.len() - 1
            }
        ];
        Err(group_failure_error(st, ftok.line, ftok.column))
    }
}

/// Folds the lines from `i` on into the suite list: a group header opens a
/// new current suite; a test line goes to the current suite, which an
/// implicit unnamed suite provides when none is open yet; any other line
/// start is fatal. A line is never empty; the guard only keeps the
/// definition total.
pub open spec fn analysed_lines(
    lines: Seq<Seq<TokenView>>,
    i: int,
    suites: Seq<TestSuiteView>,
) -> Result<Seq<TestSuiteView>, ErrorView>
    decreases lines.len() - i,
{
    if i < 0 || i >= lines.len() {
        Ok(suites)
    } else {
        let line = lines[i];
        if line.len() == 0 {
            Err(ErrorView::UnknownError(0, 0))
        } else {
            let first = line[0];
            if first.kind == TokenKind::LeftGroupParenthesis {
                match analysed_group(line) {
                    Ok(sv) => analysed_lines(lines, i + 1, suites.push(sv)),
                    Err(e) => Err(e),
                }
            } else if first.kind == TokenKind::LeftTestParenthesis || first.kind
                == TokenKind::FormatSpecifier || first.kind == TokenKind::Content {
                match analysed_test(line) {
                    Ok(tc) => {
                        let base = if suites.len() == 0 {
                            suites.push(TestSuiteView { name: Seq::<char>::empty(), tests: seq![] })
                        } else {
                            suites
                        };
                        let last = base[base.len() - 1];
                        analysed_lines(
                            lines,
                            i + 1,
                            base.update(
                                base.len() - 1,
                                TestSuiteView { name: last.name, tests: last.tests.push(tc) },
                            ),
                        )
                    },
                    Err(e) => Err(e),
                }
            } else {
                Err(ErrorView::InvalidLineStart(first.line, first.column))
            }
        }
    }
}

/// Scans the token stream once from `i`: the first `Illegal` token aborts
/// with its text and position; `Newline` closes the current line, empty
/// lines are dropped; after the last token the collected lines are
/// analysed in order.
pub open spec fn scan_from(
    ts: Seq<TokenView>,
    i: int,
    cur: Seq<TokenView>,
    acc: Seq<Seq<TokenView>>,
) -> Result<Seq<TestSuiteView>, ErrorView>
    decreases ts.len() - i,
{
    if i < 0 || i >= ts.len() {
        let lines = if cur.len() > 0 {
            acc.push(cur)
        } else {
            acc
        };
        analysed_lines(lines, 0, seq![])
    } else if ts[i].kind == TokenKind::Illegal {
        Err(ErrorView::IllegalToken(ts[i].value, ts[i].line, ts[i].column))
    } else if ts[i].kind == TokenKind::Newline {
        scan_from(
            ts,
            i + 1,
            seq![],
            if cur.len() > 0 {
                acc.push(cur)
            } else {
                acc
            },
        )
    } else {
        scan_from(ts, i + 1, cur.push(ts[i]), acc)
    }
}

/// What a whole token stream means: the ordered suite list, or the first
/// error.
pub open spec fn analysed(ts: Seq<TokenView>) -> Result<Seq<TestSuiteView>, ErrorView> {
    scan_from(ts, 0, seq![], seq![])
}

/// Which radix a format specifier token names.
pub fn get_text_format(token: &Token) -> (r: Result<TextFormat, Error>)
    ensures
        match r {
            Ok(f) => format_of(token@) == Ok::<TextFormat, ErrorView>(f),
            Err(e) => format_of(token@) == Err::<TextFormat, ErrorView>(e@),
        },
{
    if str_eq(token.value.as_str(), "b") {
        Ok(TextFormat::Binary)
    } else if str_eq(token.value.as_str(), "o") {
        Ok(TextFormat::Octal)
    } else if str_eq(token.value.as_str(), "d") {
        Ok(TextFormat::Decimal)
    } else if str_eq(token.value.as_str(), "h") {
        Ok(TextFormat::Hex)
    } else {
        Err(Error::UnknownError(token.line, token.column))
    }
}

/// Applies one `name = value` option block, given as the three tokens
/// after the separator, to the settings; on an error the settings stay
/// unchanged.
pub fn set_test_option(tokens: &[Token], settings: &mut TestCaseSettings) -> (r: Result<(), Error>)
    requires
        tokens@.len() == 3,
    ensures
        match r {
            Ok(_) => option_applied(tokens@[0]@, tokens@[2]@, *old(settings)) == Ok::<
                TestCaseSettings,
                ErrorView,
            >(*final(settings)),
            Err(e) => option_applied(tokens@[0]@, tokens@[2]@, *old(settings)) == Err::<
                TestCaseSettings,
                ErrorView,
            >(e@) && *final(settings) == *old(settings),
        },
{
    let name = &tokens[0];
    let value = &tokens[2];
    if str_eq(name.value.as_str(), "ignore-case") {
        match get_boolean_value(value.value.as_str()) {
            Some(b) => {
                settings.ignore_case = b;
                Ok(())
            },
            None => Err(Error::InvalidOptionValue("boolean".to_owned(), value.line, value.column)),
        }
    } else if str_eq(name.value.as_str(), "delay") {
        match get_time_value(value.value.as_str()) {
            Some(t) => {
                settings.delay = Some(t);
                Ok(())
            },
            None => Err(Error::InvalidOptionValue("time".to_owned(), value.line, value.column)),
        }
    } else if str_eq(name.value.as_str(), "timeout") {
        match get_time_value(value.value.as_str()) {
            Some(t) => {
                settings.timeout = t;
                Ok(())
            },
            None => Err(Error::InvalidOptionValue("time".to_owned(), value.line, value.column)),
        }
    } else if str_eq(name.value.as_str(), "repeat") {
        match get_u32_value(value.value.as_str()) {
            Some(n) => {
                settings.repeat = n;
                Ok(())
            },
            None => Err(Error::InvalidOptionValue("number".to_owned(), value.line, value.column)),
        }
    } else {
        Err(Error::UnknownTestOption(name.value.clone(), name.line, name.column))
    }
}

/// Runs a group-header line through the group grammar and builds its empty
/// suite, or maps the failure state to its diagnostic.
pub fn analyse_test_group(tokens: &Vec<Token>, state_machine: &FiniteStateMachine) -> (r: Result<
    TestSuite,
    Error,
>)
    requires
        tokens@.len() > 0,
        state_machine.grammar == Grammar::Group,
        state_machine.start_state == 1,
        state_machine.accept_states@ =~= seq![4u32],
    ensures
        match r {
            Ok(suite) => analysed_group(views_of(tokens@)) == Ok::<TestSuiteView, ErrorView>(
                suite@,
            ),
            Err(e) => analysed_group(views_of(tokens@)) == Err::<TestSuiteView, ErrorView>(e@),
        },
{
    let ghost line = views_of(tokens@);
    proof {
        assert(kinds_of(tokens@) =~= view_kinds(line));
        assert(state_machine.accept_states@[0] == 4u32);
    }
    let result = state_machine.run(tokens);
    if let Err((state, token)) = result {
        proof {
            let (st, ridx) = state_machine.outcome(kinds_of(tokens@));
            if ridx == -1 && st == 4u32 {
                assert(state_machine.accept_states@.contains(st));
            }
            crate::fsm::lemma_run_from_bounds(Grammar::Group, 1, kinds_of(tokens@), 0);
            assert(run_from(Grammar::Group, 1, view_kinds(line), 0) == (st, ridx));
            let pick = if ridx >= 0 {
                ridx
            } else {
                line.len() - 1
            };
            assert(token@ == tokens@[pick]@);
            assert(line[pick] == tokens@[pick]@);
            assert(state == st);
            assert(analysed_group(line) == Err::<TestSuiteView, ErrorView>(
                group_failure_error(st, line[pick].line, line[pick].column),
            ));
        }
        return Err(map_group_failure(state, token.line, token.column));
    }
    proof {
        let (st, ridx) = state_machine.outcome(kinds_of(tokens@));
        assert(state_machine.accept_states@.contains(st));
        assert(st == 4u32 && ridx == -1);
    }
    if tokens.len() <= 1 {
        return Err(Error::UnknownError(0, 0));
    }
    let name = tokens[1].value.clone();
    Ok(TestSuite::new(name))
}

/// Runs a test-case line through the test grammar, then walks the accepted
/// token sequence positionally to build the test case: the optional name
/// and options header, the optional input format, the input content, the
/// skipped direction separator, the optional output format and the output
/// content.
#[verifier::rlimit(100)]
pub fn analyse_test(tokens: &Vec<Token>, state_machine: &FiniteStateMachine) -> (r: Result<
    TestCase,
    Error,
>)
    requires
        tokens@.len() > 0,
        state_machine.grammar == Grammar::Test,
        state_machine.start_state == 1,
        state_machine.accept_states@ =~= seq![9u32],
    ensures
        match r {
            Ok(test) => analysed_test(views_of(tokens@)) == Ok::<TestCaseView, ErrorView>(test@),
            Err(e) => analysed_test(views_of(tokens@)) == Err::<TestCaseView, ErrorView>(e@),
        },
{
    let ghost line = views_of(tokens@);
    proof {
        assert(kinds_of(tokens@) =~= view_kinds(line));
        assert(state_machine.accept_states@[0] == 9u32);
    }
    let result = state_machine.run(tokens);
    if let Err((state, token)) = result {
        proof {
            let (st, ridx) = state_machine.outcome(kinds_of(tokens@));
            if ridx == -1 && st == 9u32 {
                assert(state_machine.accept_states@.contains(st));
            }
            crate::fsm::lemma_run_from_bounds(Grammar::Test, 1, kinds_of(tokens@), 0);
            assert(run_from(Grammar::Test, 1, view_kinds(line), 0) == (st, ridx));
            let pick = if ridx >= 0 {
                ridx
            } else {
                line.len() - 1
            };
            assert(token@ == tokens@[pick]@);
            assert(line[pick] == tokens@[pick]@);
            assert(analysed_test(line) == Err::<TestCaseView, ErrorView>(
                test_failure_error(st, line[pick].line, line[pick].column),
            ));
        }
        return Err(map_test_failure(state, token.line, token.column));
    }
    proof {
        let (st, ridx) = state_machine.outcome(kinds_of(tokens@));
        assert(state_machine.accept_states@.contains(st));
        assert(st == 9u32 && ridx == -1);
        assert(analysed_test(line) == extracted_test(line));
    }

    let mut name = String::new();
    let mut settings = TestCaseSettings::default();
    let mut index: usize = 0;

    if tokens[0].kind == TokenKind::LeftTestParenthesis {
        if tokens.len() <= 1 {
            return Err(Error::UnknownError(tokens[0].line, tokens[0].column));
        }
        name = tokens[1].value.clone();
        index = 2;
        while index < tokens.len() && tokens[index].kind == TokenKind::ContentSeparator
            invariant
                line == views_of(tokens@),
                2 <= index <= tokens@.len(),
                tokens@.len() > 1,
                line[0].kind == TokenKind::LeftTestParenthesis,
                name@ == line[1].value,
                analysed_test(line) == extracted_test(line),
                test_options_from(line, 2, default_test_settings()) == test_options_from(
                    line,
                    index as int,
                    settings,
                ),
            decreases tokens@.len() - index,
        {
            if tokens.len() - index <= 3 {
                return Err(Error::UnknownError(tokens[index].line, tokens[index].column));
            }
            let block = slice_subrange(tokens.as_slice(), index + 1, index + 4);
            proof {
                assert(block@[0]@ == line[index + 1]);
                assert(block@[2]@ == line[index + 3]);
            }
            match set_test_option(block, &mut settings) {
                Ok(_) => {},
                Err(e) => {
                    return Err(e);
                },
            }
            index = index + 4;
        }
        if index >= tokens.len() {
            return Err(Error::UnknownError(tokens[0].line, tokens[0].column));
        }
        index = index + 1;
    }

    proof {
        assert(extracted_test(line) == extracted_body(line, index as int, name@, settings));
    }

    if index < tokens.len() && tokens[index].kind == TokenKind::FormatSpecifier {
        match get_text_format(&tokens[index]) {
            Ok(f) => {
                settings.input_format = f;
            },
            Err(e) => {
                return Err(e);
            },
        }
        index = index + 1;
        if index >= tokens.len() {
            return Err(Error::UnknownError(tokens[0].line, tokens[0].column));
        }
    } else if index >= tokens.len() {
        return Err(Error::UnknownError(tokens[0].line, tokens[0].column));
    }
    proof {
        assert(extracted_test(line) == extracted_input(line, index as int, name@, settings));
    }
    let input = tokens[index].value.clone();
    let remaining = tokens.len() - index;

    if remaining > 2 && tokens[index + 2].kind == TokenKind::FormatSpecifier {
        match get_text_format(&tokens[index + 2]) {
            Ok(f) => {
                settings.output_format = f;
            },
            Err(e) => {
                return Err(e);
            },
        }
        if remaining > 3 {
            let output = tokens[index + 3].value.clone();
            Ok(TestCase::new_with_settings(name, input, output, settings))
        } else {
            Err(Error::UnknownError(tokens[0].line, tokens[0].column))
        }
    } else if remaining > 2 {
        let output = tokens[index + 2].value.clone();
        Ok(TestCase::new_with_settings(name, input, output, settings))
    } else {
        Err(Error::UnknownError(tokens[0].line, tokens[0].column))
    }
}

/// Analyses a whole token stream into the ordered suite list, or the first
/// error; on any error no suites are returned.
pub fn analyse_tokens(tokens: Vec<Token>) -> (r: Result<Vec<TestSuite>, Error>)
    ensures
        match r {
            Ok(suites) => analysed(views_of(tokens@)) == Ok::<Seq<TestSuiteView>, ErrorView>(
                suites_views(suites@),
            ),
            Err(e) => analysed(views_of(tokens@)) == Err::<Seq<TestSuiteView>, ErrorView>(e@),
        },
{
    let ghost tvs = views_of(tokens@);

    let mut lines: Vec<Vec<Token>> = Vec::new();
    let mut cur: Vec<Token> = Vec::new();
    let mut idx: usize = 0;
    proof {
        assert(views_of(cur@) =~= Seq::<TokenView>::empty());
        assert(lines_views(lines@) =~= Seq::<Seq<TokenView>>::empty());
    }
    while idx < tokens.len()
        invariant
            idx <= tokens@.len(),
            tvs == views_of(tokens@),
            analysed(tvs) == scan_from(tvs, idx as int, views_of(cur@), lines_views(lines@)),
        decreases tokens@.len() - idx,
    {
        let ghost cur0 = views_of(cur@);
        let ghost lv0 = lines_views(lines@);
        let t = &tokens[idx];
        if t.kind == TokenKind::Illegal {
            return Err(Error::IllegalToken(t.value.clone(), t.line, t.column));
        }
        if t.kind == TokenKind::Newline {
            if cur.len() > 0 {
                lines.push(cur);
                cur = Vec::new();
                proof {
                    assert(lines_views(lines@) =~= lv0.push(cur0));
                    assert(views_of(cur@) =~= Seq::<TokenView>::empty());
                }
            } else {
                proof {
                    assert(views_of(cur@) =~= Seq::<TokenView>::empty());
                }
            }
        } else {
            let cloned = t.clone();
            proof {
                lemma_views_push(cur@, cloned);
            }
            cur.push(cloned);
            proof {
                assert(views_of(cur@) =~= cur0.push(tvs[idx as int]));
            }
        }
        idx = idx + 1;
    }
    if cur.len() > 0 {
        let ghost lv0 = lines_views(lines@);
        let ghost cur0 = views_of(cur@);
        lines.push(cur);
        proof {
            assert(lines_views(lines@) =~= lv0.push(cur0));
        }
    }

    let ghost lvs = lines_views(lines@);
    proof {
        assert(analysed(tvs) == analysed_lines(lvs, 0, seq![]));
    }

    let group_machine = group_state_machine();
    let test_machine = test_state_machine();

    let mut suites: Vec<TestSuite> = Vec::new();
    let mut k: usize = 0;
    proof {
        assert(suites_views(suites@) =~= Seq::<TestSuiteView>::empty());
    }
    while k < lines.len()
        invariant
            k <= lines@.len(),
            tvs == views_of(tokens@),
            lvs == lines_views(lines@),
            group_machine.grammar == Grammar::Group,
            group_machine.start_state == 1,
            group_machine.accept_states@ =~= seq![4u32],
            test_machine.grammar == Grammar::Test,
            test_machine.start_state == 1,
            test_machine.accept_states@ =~= seq![9u32],
            analysed(tvs) == analysed_lines(lvs, k as int, suites_views(suites@)),
        decreases lines@.len() - k,
    {
        let ghost sv0 = suites_views(suites@);
        let line = &lines[k];
        proof {
            assert(lvs[k as int] == views_of(line@));
            assert(views_of(line@).len() == line@.len());
        }
        if line.len() == 0 {
            proof {
                assert(analysed_lines(lvs, k as int, sv0) == Err::<Seq<TestSuiteView>, ErrorView>(
                    ErrorView::UnknownError(0, 0),
                ));
            }
            return Err(Error::UnknownError(0, 0));
        }
        let first_kind = line[0].kind;
        if first_kind == TokenKind::LeftGroupParenthesis {
            match analyse_test_group(line, &group_machine) {
                Ok(suite) => {
                    suites.push(suite);
                    proof {
                        assert(suites_views(suites@) =~= sv0.push(suites@.last()@));
                    }
                },
                Err(e) => {
                    return Err(e);
                },
            }
        } else if first_kind == TokenKind::LeftTestParenthesis || first_kind
            == TokenKind::FormatSpecifier || first_kind == TokenKind::Content {
            match analyse_test(line, &test_machine) {
                Ok(test) => {
                    if suites.len() == 0 {
                        suites.push(TestSuite::new(String::new()));
                        proof {
                            assert(suites_views(suites@) =~= sv0.push(
                                TestSuiteView { name: Seq::<char>::empty(), tests: seq![] },
                            ));
                        }
                    }
                    let ghost base = suites_views(suites@);
                    let mut suite = suites.pop().unwrap();
                    let ghost popped = suite@;
                    suite.push(test);
                    suites.push(suite);
                    proof {
                        assert(popped == base[base.len() - 1]);
                        assert(suites_views(suites@) =~= base.update(
                            base.len() - 1,
                            TestSuiteView {
                                name: popped.name,
                                tests: popped.tests.push(test@),
                            },
                        ));
                    }
                },
                Err(e) => {
                    return Err(e);
                },
            }
        } else {
            proof {
                assert(views_of(line@)[0] == line@[0]@);
                assert(analysed_lines(lvs, k as int, sv0) == Err::<Seq<TestSuiteView>, ErrorView>(
                    ErrorView::InvalidLineStart(line@[0].line, line@[0].column),
                ));
            }
            return Err(Error::InvalidLineStart(line[0].line, line[0].column));
        }
        k = k + 1;
    }
    Ok(suites)
}

/// Whether a line opens a group header.
pub open spec fn is_group_line(line: Seq<TokenView>) -> bool {
    line.len() > 0 && line[0].kind == TokenKind::LeftGroupParenthesis
}

/// Whether a line is a test-case line by its first token.
pub open spec fn is_test_line(line: Seq<TokenView>) -> bool {
    line.len() > 0 && (line[0].kind == TokenKind::LeftTestParenthesis || line[0].kind
        == TokenKind::FormatSpecifier || line[0].kind == TokenKind::Content)
}

/// The names of a suite list, in order.
pub open spec fn names_of(suites: Seq<TestSuiteView>) -> Seq<Seq<char>> {
    Seq::new(suites.len(), |i: int| suites[i].name)
}

/// All tests of a suite list, concatenated in suite order.
pub open spec fn tests_of(suites: Seq<TestSuiteView>) -> Seq<TestCaseView>
    decreases suites.len(),
{
    if suites.len() == 0 {
        seq![]
    } else {
        tests_of(suites.drop_last()) + suites.last().tests
    }
}

/// The tests the lines from `i` on contribute, in line order.
pub open spec fn lines_tests(lines: Seq<Seq<TokenView>>, i: int) -> Seq<TestCaseView>
    decreases lines.len() - i,
{
    if i < 0 || i >= lines.len() {
        seq![]
    } else if is_test_line(lines[i]) {
        match analysed_test(lines[i]) {
            Ok(tc) => seq![tc] + lines_tests(lines, i + 1),
            Err(_) => lines_tests(lines, i + 1),
        }
    } else {
        lines_tests(lines, i + 1)
    }
}

/// The suite names the lines from `i` on open, in line order; `open` says
/// whether a current suite already exists, so that the first test line
/// before any group header contributes the one implicit unnamed suite.
pub open spec fn lines_suite_names(lines: Seq<Seq<TokenView>>, i: int, open: bool) -> Seq<
    Seq<char>,
>
    decreases lines.len() - i,
{
    if i < 0 || i >= lines.len() {
        seq![]
    } else if is_group_line(lines[i]) {
        match analysed_group(lines[i]) {
            Ok(sv) => seq![sv.name] + lines_suite_names(lines, i + 1, true),
            Err(_) => lines_suite_names(lines, i + 1, true),
        }
    } else if is_test_line(lines[i]) && !open {
        seq![Seq::<char>::empty()] + lines_suite_names(lines, i + 1, true)
    } else {
        lines_suite_names(lines, i + 1, open)
    }
}

/// Ordering of the parse result. When the lines from `i` on analyse to
/// `suites` on top of the suites in `acc`: every test appears exactly
/// once, in source line order, after the tests already accumulated; and
/// the suites appear in the order their lines open them — the group
/// headers in line order, preceded by the one implicit unnamed suite when
/// a test line comes first.
pub proof fn lemma_lines_order(lines: Seq<Seq<TokenView>>, i: int, acc: Seq<TestSuiteView>)
    requires
        0 <= i,
        analysed_lines(lines, i, acc) is Ok,
    ensures
        tests_of(analysed_lines(lines, i, acc)->Ok_0) =~= tests_of(acc) + lines_tests(lines, i),
        names_of(analysed_lines(lines, i, acc)->Ok_0) =~= names_of(acc) + lines_suite_names(
            lines,
            i,
            acc.len() > 0,
        ),
    decreases lines.len() - i,
{
    if i >= lines.len() {
    } else {
        let line = lines[i];
        let first = line[0];
        if is_group_line(line) {
            let sv = analysed_group(line)->Ok_0;
            lemma_lines_order(lines, i + 1, acc.push(sv));
            assert(tests_of(acc.push(sv)) =~= tests_of(acc) + sv.tests) by {
                assert(acc.push(sv).drop_last() =~= acc);
            }
            assert(names_of(acc.push(sv)) =~= names_of(acc) + seq![sv.name]);
        } else if is_test_line(line) {
            let tc = analysed_test(line)->Ok_0;
            let base = if acc.len() == 0 {
                acc.push(TestSuiteView { name: Seq::<char>::empty(), tests: seq![] })
            } else {
                acc
            };
            let last = base[base.len() - 1];
            let grown = base.update(
                base.len() - 1,
                TestSuiteView { name: last.name, tests: last.tests.push(tc) },
            );
            lemma_lines_order(lines, i + 1, grown);
            assert(tests_of(grown) =~= tests_of(base) + seq![tc]) by {
                assert(grown.drop_last() =~= base.drop_last());
                assert(grown.last().tests =~= base.last().tests.push(tc));
            }
            if acc.len() == 0 {
                assert(tests_of(base) =~= tests_of(acc)) by {
                    assert(base.drop_last() =~= acc);
                }
            }
            assert(names_of(grown) =~= names_of(base));
            if acc.len() == 0 {
                assert(names_of(base) =~= names_of(acc) + seq![Seq::<char>::empty()]);
            }
        }
    }
}

/// The stability law of the parser: on any token stream it accepts, the
/// tests of all suites, read in suite order, are exactly the accepted
/// test lines in source line order, and the suite names are the group
/// headers in source line order, preceded by the implicit unnamed suite
/// when a test line comes before any group header.
pub proof fn lemma_parse_order(ts: Seq<TokenView>, suites: Seq<TestSuiteView>)
    requires
        analysed(ts) == Ok::<Seq<TestSuiteView>, ErrorView>(suites),
    ensures
        tests_of(suites) =~= lines_tests(scan_lines(ts, 0, seq![], seq![]), 0),
        names_of(suites) =~= lines_suite_names(scan_lines(ts, 0, seq![], seq![]), 0, false),
{
    lemma_scan_lines(ts, 0, seq![], seq![]);
    let lines = scan_lines(ts, 0, seq![], seq![]);
    lemma_lines_order(lines, 0, seq![]);
    assert(tests_of(Seq::<TestSuiteView>::empty()) =~= Seq::<TestCaseView>::empty());
    assert(names_of(Seq::<TestSuiteView>::empty()) =~= Seq::<Seq<char>>::empty());
}

/// The logical lines of a token stream, as the scan of `scan_from` splits
/// them: `Newline` closes the current line and empty lines are dropped.
pub open spec fn scan_lines(
    ts: Seq<TokenView>,
    i: int,
    cur: Seq<TokenView>,
    acc: Seq<Seq<TokenView>>,
) -> Seq<Seq<TokenView>>
    decreases ts.len() - i,
{
    if i < 0 || i >= ts.len() {
        if cur.len() > 0 {
            acc.push(cur)
        } else {
            acc
        }
    } else if ts[i].kind == TokenKind::Newline {
        scan_lines(
            ts,
            i + 1,
            seq![],
            if cur.len() > 0 {
                acc.push(cur)
            } else {
                acc
            },
        )
    } else {
        scan_lines(ts, i + 1, cur.push(ts[i]), acc)
    }
}

/// When the scan reaches the end without meeting an `Illegal` token, its
/// result is the analysis of exactly the lines `scan_lines` yields.
pub proof fn lemma_scan_lines(ts: Seq<TokenView>, i: int, cur: Seq<TokenView>, acc: Seq<Seq<TokenView>>)
    requires
        0 <= i,
        scan_from(ts, i, cur, acc) is Ok,
    ensures
        scan_from(ts, i, cur, acc) == analysed_lines(scan_lines(ts, i, cur, acc), 0, seq![]),
    decreases ts.len() - i,
{
    if i >= ts.len() {
    } else if ts[i].kind == TokenKind::Illegal {
    } else if ts[i].kind == TokenKind::Newline {
        lemma_scan_lines(
            ts,
            i + 1,
            seq![],
            if cur.len() > 0 {
                acc.push(cur)
            } else {
                acc
            },
        );
    } else {
        lemma_scan_lines(ts, i + 1, cur.push(ts[i]), acc);
    }
}

/// Parses a whole source text: lexing, line splitting, grammar checking
/// and test building in one step. The ordered suite list is returned only
/// if every line parses; the empty source yields the empty list.
pub fn parse(source: &str) -> (r: Result<Vec<TestSuite>, Error>)
    requires
        source@.len() + 2 <= u32::MAX,
    ensures
        match r {
            Ok(suites) => analysed(crate::lexer::lex(source@)) == Ok::<
                Seq<TestSuiteView>,
                ErrorView,
            >(suites_views(suites@)),
            Err(e) => analysed(crate::lexer::lex(source@)) == Err::<Seq<TestSuiteView>, ErrorView>(
                e@,
            ),
        },
{
    let tokens = crate::lexer::get_tokens(source);
    analyse_tokens(tokens)
}

} // verus!
