//! The command line of the manifest runner.

use crate::text::{chars_of, optional_text, quoted, quoted_text, same_text, text_of, text_views};
use crate::trim::{
    blank_texts_trim_to_nothing, is_blank_text, is_white_space, trim, trimmed,
    trimmed_texts_are_tight,
};
use vstd::prelude::*;
use vstd::string::*;

verus! {

/// The stretches of a text between its commas.
pub open spec fn comma_pieces(text: Seq<char>) -> Seq<Seq<char>>
    decreases text.len(),
{
    if text.len() == 0 {
        seq![Seq::empty()]
    } else {
        let before = comma_pieces(text.drop_last());
        if text.last() == ',' {
            before.push(Seq::empty())
        } else {
            before.drop_last().push(before.last().push(text.last()))
        }
    }
}

/// The pieces that are more than white space, without the white space around them.
pub open spec fn named_pieces(pieces: Seq<Seq<char>>) -> Seq<Seq<char>>
    decreases pieces.len(),
{
    if pieces.len() == 0 {
        Seq::empty()
    } else {
        let before = named_pieces(pieces.drop_last());
        let name = trimmed(pieces.last());
        if name.len() == 0 {
            before
        } else {
            before.push(name)
        }
    }
}

/// The case ids in a comma-separated list.
pub open spec fn case_ids_in(list: Seq<char>) -> Seq<Seq<char>> {
    named_pieces(comma_pieces(list))
}

/// Reads the case ids out of a comma-separated list.
pub fn case_ids(list: &str) -> (r: Vec<String>)
    ensures
        text_views(r@) == case_ids_in(list@),
{
    let chars = chars_of(list);
    let mut names: Vec<String> = Vec::new();
    let mut from: usize = 0;
    let mut i: usize = 0;
    proof {
        assert(chars@.take(0) =~= Seq::empty());
        assert(comma_pieces(chars@.take(0)).drop_last() =~= Seq::empty());
        assert(text_views(names@) =~= Seq::empty());
        assert(chars@.subrange(0, 0) =~= Seq::empty());
    }
    while i < chars.len()
        invariant
            chars@ == list@,
            from <= i <= chars@.len(),
            comma_pieces(chars@.take(i as int)).len() > 0,
            text_views(names@) == named_pieces(comma_pieces(chars@.take(i as int)).drop_last()),
            chars@.subrange(from as int, i as int) == comma_pieces(chars@.take(i as int)).last(),
        decreases chars@.len() - i,
    {
        let ghost before = comma_pieces(chars@.take(i as int));
        let ghost after = comma_pieces(chars@.take(i + 1));
        let ghost old_names = names@;
        assert(chars@.take(i + 1).drop_last() =~= chars@.take(i as int));
        if chars[i] == ',' {
            let piece = text_of(&chars, from, i);
            let name = trim(piece.as_str());
            assert(after.drop_last() =~= before);
            if !name.as_str().is_empty() {
                names.push(name);
                assert(text_views(names@) =~= text_views(old_names).push(name@));
            }
            from = i + 1;
            assert(chars@.subrange(from as int, i + 1) =~= after.last());
        } else {
            assert(after.drop_last() =~= before.drop_last());
            assert(chars@.subrange(from as int, i + 1) =~= chars@.subrange(
                from as int,
                i as int,
            ).push(chars@[i as int]));
        }
        i += 1;
    }
    assert(chars@.take(i as int) =~= chars@);
    let piece = text_of(&chars, from, i);
    let name = trim(piece.as_str());
    let ghost old_names = names@;
    if !name.as_str().is_empty() {
        names.push(name);
        assert(text_views(names@) =~= text_views(old_names).push(name@));
    }
    names
}

/// What the command line asks for: the settings of a run.
#[derive(Debug)]
pub struct Cli {
    pub manifest: String,
    /// Accepted for the sake of other runners, and ignored.
    pub lib: String,
    pub out: String,
    pub cases: Option<Vec<String>>,
}

/// What the command line asks for.
#[derive(Debug)]
pub enum CliRequest {
    Run(Cli),
    Help,
}

/// The flags seen so far.
pub struct CliView {
    pub manifest: Option<Seq<char>>,
    pub lib: Option<Seq<char>>,
    pub out: Option<Seq<char>>,
    pub cases: Option<Seq<Seq<char>>>,
}

/// No flag seen yet.
pub open spec fn no_flags() -> CliView {
    CliView { manifest: None, lib: None, out: None, cases: None }
}

/// What a command line comes to.
pub enum CliOutcome {
    Run(CliView),
    Help,
    Fault(Seq<char>),
}

/// A run needs a manifest, a library and an output path; the first that is missing is named.
pub open spec fn completed(flags: CliView) -> CliOutcome {
    if flags.manifest is None {
        CliOutcome::Fault("missing --manifest"@)
    } else if flags.lib is None {
        CliOutcome::Fault("missing --lib"@)
    } else if flags.out is None {
        CliOutcome::Fault("missing --out"@)
    } else {
        CliOutcome::Run(flags)
    }
}

/// The flags that take a value.
pub open spec fn takes_value(flag: Seq<char>) -> bool {
    flag == "--manifest"@ || flag == "--lib"@ || flag == "--out"@ || flag == "--cases"@
}

/// The flags after one more flag and its value; a later flag replaces an earlier one.
pub open spec fn with_flag(flags: CliView, flag: Seq<char>, value: Seq<char>) -> CliView {
    if flag == "--manifest"@ {
        CliView { manifest: Some(value), ..flags }
    } else if flag == "--lib"@ {
        CliView { lib: Some(value), ..flags }
    } else if flag == "--out"@ {
        CliView { out: Some(value), ..flags }
    } else {
        CliView { cases: Some(case_ids_in(value)), ..flags }
    }
}

/// What the rest of a command line comes to, after `flags`.
pub open spec fn read_args(args: Seq<Seq<char>>, flags: CliView) -> CliOutcome
    decreases args.len(),
{
    if args.len() == 0 {
        completed(flags)
    } else if takes_value(args[0]) {
        if args.len() == 1 {
            CliOutcome::Fault("missing value after "@ + args[0])
        } else if args[0] == "--cases"@ && case_ids_in(args[1]).len() == 0 {
            CliOutcome::Fault("--cases must contain at least one case id"@)
        } else {
            read_args(args.skip(2), with_flag(flags, args[0], args[1]))
        }
    } else if args[0] == "-h"@ || args[0] == "--help"@ {
        CliOutcome::Help
    } else {
        CliOutcome::Fault("unknown argument "@ + quoted_text(args[0]) + "; use --help"@)
    }
}

/// An optional list of texts.
pub open spec fn optional_views(texts: Option<Vec<String>>) -> Option<Seq<Seq<char>>> {
    match texts {
        Some(texts) => Some(text_views(texts@)),
        None => None,
    }
}

/// The settings of a run, as flags.
pub open spec fn cli_view(cli: Cli) -> CliView {
    CliView {
        manifest: Some(cli.manifest@),
        lib: Some(cli.lib@),
        out: Some(cli.out@),
        cases: optional_views(cli.cases),
    }
}

/// The value that follows a flag at `at - 1`.
pub fn next_value(args: &Vec<String>, at: usize, flag: &str) -> (r: Result<String, String>)
    ensures
        match r {
            Ok(value) => at < args@.len() && value@ == args@[at as int]@,
            Err(message) => at >= args@.len() && message@ == "missing value after "@ + flag@,
        },
{
    if at < args.len() {
        Ok(args[at].clone())
    } else {
        let mut message = String::from_str("missing value after ");
        message.append(flag);
        Err(message)
    }
}

/// Reads the arguments of the runner, without the program's name.
pub fn parse_cli(args: &Vec<String>) -> (r: Result<CliRequest, String>)
    ensures
        match r {
            Ok(CliRequest::Run(cli)) => read_args(text_views(args@), no_flags()) == CliOutcome::Run(
                cli_view(cli),
            ),
            Ok(CliRequest::Help) => read_args(text_views(args@), no_flags()) == CliOutcome::Help,
            Err(message) => read_args(text_views(args@), no_flags()) == CliOutcome::Fault(message@),
        },
{
    let ghost all = text_views(args@);
    let mut manifest: Option<String> = None;
    let mut lib: Option<String> = None;
    let mut out: Option<String> = None;
    let mut cases: Option<Vec<String>> = None;
    let mut i: usize = 0;
    assert(all.skip(0) =~= all);
    while i < args.len()
        invariant
            all == text_views(args@),
            i <= args@.len(),
            read_args(all, no_flags()) == read_args(
                all.skip(i as int),
                CliView {
                    manifest: optional_text(manifest),
                    lib: optional_text(lib),
                    out: optional_text(out),
                    cases: optional_views(cases),
                },
            ),
        decreases args@.len() - i,
    {
        let arg = args[i].as_str();
        let ghost rest = all.skip(i as int);
        let ghost flags = CliView {
            manifest: optional_text(manifest),
            lib: optional_text(lib),
            out: optional_text(out),
            cases: optional_views(cases),
        };
        assert(rest[0] == arg@);
        assert(rest.len() > 1 ==> rest[1] == args@[i + 1]@);
        if same_text(arg, "--manifest") || same_text(arg, "--lib") || same_text(arg, "--out")
            || same_text(arg, "--cases") {
            let value = match next_value(args, i + 1, arg) {
                Ok(value) => value,
                Err(message) => {
                    return Err(message);
                },
            };
            assert(rest.skip(2) =~= all.skip(i + 2));
            if same_text(arg, "--manifest") {
                manifest = Some(value);
            } else if same_text(arg, "--lib") {
                lib = Some(value);
            } else if same_text(arg, "--out") {
                out = Some(value);
            } else {
                let ids = case_ids(value.as_str());
                if ids.len() == 0 {
                    assert(text_views(ids@).len() == 0);
                    return Err(String::from_str("--cases must contain at least one case id"));
                }
                assert(text_views(ids@).len() != 0);
                cases = Some(ids);
            }
            proof {
                // The flags differ in length from `--cases`.
                reveal_strlit("--manifest");
                reveal_strlit("--lib");
                reveal_strlit("--out");
                reveal_strlit("--cases");
                assert(read_args(rest, flags) == read_args(
                    rest.skip(2),
                    with_flag(flags, arg@, value@),
                ));
            }
            i += 2;
        } else if same_text(arg, "-h") || same_text(arg, "--help") {
            return Ok(CliRequest::Help);
        } else {
            let mut message = String::from_str("unknown argument ");
            message.append(quoted(arg).as_str());
            message.append("; use --help");
            return Err(message);
        }
    }
    assert(all.skip(i as int).len() == 0);
    let manifest = match manifest {
        Some(manifest) => manifest,
        None => {
            return Err(String::from_str("missing --manifest"));
        },
    };
    let lib = match lib {
        Some(lib) => lib,
        None => {
            return Err(String::from_str("missing --lib"));
        },
    };
    let out = match out {
        Some(out) => out,
        None => {
            return Err(String::from_str("missing --out"));
        },
    };
    Ok(CliRequest::Run(Cli { manifest, lib, out, cases }))
}

/// No piece holds a comma.
proof fn pieces_hold_no_comma(text: Seq<char>)
    ensures
        comma_pieces(text).len() > 0,
        forall|i: int|
            0 <= i < comma_pieces(text).len() ==> !(#[trigger] comma_pieces(text)[i]).contains(','),
    decreases text.len(),
{
    if text.len() > 0 {
        pieces_hold_no_comma(text.drop_last());
        let before = comma_pieces(text.drop_last());
        let after = comma_pieces(text);
        assert forall|i: int| 0 <= i < after.len() implies !(#[trigger] after[i]).contains(',') by {
            if text.last() == ',' {
                if i < before.len() {
                    assert(after[i] == before[i]);
                }
            } else if i < before.len() - 1 {
                assert(after[i] == before[i]);
            } else {
                let piece = before[before.len() - 1];
                assert(!piece.contains(','));
                assert(after[i] == piece.push(text.last()));
                if after[i].contains(',') {
                    let k = after[i].index_of(',');
                    assert(piece[k] == ',');
                }
            }
        }
    }
}

/// A text that names a case: not empty, without a comma, and without white space at its ends.
pub open spec fn is_case_name(name: Seq<char>) -> bool {
    &&& name.len() > 0
    &&& !name.contains(',')
    &&& !is_white_space(name[0])
    &&& !is_white_space(name.last())
}

/// Pieces without commas give names.
proof fn named_pieces_are_names(pieces: Seq<Seq<char>>)
    requires
        forall|i: int| 0 <= i < pieces.len() ==> !(#[trigger] pieces[i]).contains(','),
    ensures
        forall|i: int|
            0 <= i < named_pieces(pieces).len() ==> is_case_name(#[trigger] named_pieces(pieces)[i]),
    decreases pieces.len(),
{
    if pieces.len() > 0 {
        let rest = pieces.drop_last();
        assert forall|i: int| 0 <= i < rest.len() implies !(#[trigger] rest[i]).contains(',') by {
            assert(rest[i] == pieces[i]);
        }
        named_pieces_are_names(rest);
        let piece = pieces.last();
        assert(piece == pieces[pieces.len() - 1]);
        let name = trimmed(piece);
        trimmed_texts_are_tight(piece);
        if name.contains(',') {
            let k = name.index_of(',');
            assert(piece.contains(name[k]));
        }
        let before = named_pieces(rest);
        let after = named_pieces(pieces);
        assert forall|i: int| 0 <= i < after.len() implies is_case_name(#[trigger] after[i]) by {
            if i < before.len() {
                assert(after[i] == before[i]);
            } else {
                assert(after[i] == name);
            }
        }
    }
}

/// The ids that a list names are names: not empty, without commas, and trimmed.
pub proof fn case_ids_are_names(list: Seq<char>)
    ensures
        forall|i: int|
            0 <= i < case_ids_in(list).len() ==> is_case_name(#[trigger] case_ids_in(list)[i]),
{
    pieces_hold_no_comma(list);
    named_pieces_are_names(comma_pieces(list));
}

/// A command line that asks for a run has given a manifest, a library and an output path; if
/// it names cases, it names at least one.
pub proof fn runs_are_complete(args: Seq<Seq<char>>, flags: CliView)
    requires
        flags.cases matches Some(ids) ==> ids.len() > 0,
    ensures
        read_args(args, flags) matches CliOutcome::Run(run) ==> {
            &&& run.manifest is Some
            &&& run.lib is Some
            &&& run.out is Some
            &&& run.cases matches Some(ids) ==> ids.len() > 0
        },
    decreases args.len(),
{
    if args.len() > 1 && takes_value(args[0]) && !(args[0] == "--cases"@ && case_ids_in(
        args[1],
    ).len() == 0) {
        runs_are_complete(args.skip(2), with_flag(flags, args[0], args[1]));
    }
}

/// A flag that is given again replaces what it said before.
pub proof fn later_flags_win(
    flags: CliView,
    flag: Seq<char>,
    first: Seq<char>,
    second: Seq<char>,
    rest: Seq<Seq<char>>,
)
    requires
        takes_value(flag),
        flag == "--cases"@ ==> case_ids_in(first).len() > 0,
    ensures
        read_args(seq![flag, first, flag, second] + rest, flags) == read_args(
            seq![flag, second] + rest,
            flags,
        ),
{
    let twice = seq![flag, first, flag, second] + rest;
    let once = seq![flag, second] + rest;
    let between = with_flag(flags, flag, first);
    assert(twice.skip(2) =~= once);
    assert(read_args(twice, flags) == read_args(once, between));
    assert(once[0] == flag && once[1] == second);
    assert(with_flag(between, flag, second) == with_flag(flags, flag, second));
}

/// A request for help is granted as soon as it is read, whatever follows it.
pub proof fn help_comes_first(flag: Seq<char>, rest: Seq<Seq<char>>, flags: CliView)
    requires
        flag == "-h"@ || flag == "--help"@,
    ensures
        read_args(seq![flag] + rest, flags) is Help,
{
    reveal_strlit("-h");
    reveal_strlit("--help");
    reveal_strlit("--manifest");
    reveal_strlit("--lib");
    reveal_strlit("--out");
    reveal_strlit("--cases");
    assert((seq![flag] + rest)[0] == flag);
    assert("--help"@[2] == 'h' && "--lib"@[2] == 'l');
}

/// Pieces on both sides of a comma are the pieces of both sides.
proof fn commas_part_pieces(first: Seq<char>, second: Seq<char>)
    ensures
        comma_pieces(first + seq![','] + second) == comma_pieces(first) + comma_pieces(second),
    decreases second.len(),
{
    let whole = first + seq![','] + second;
    pieces_hold_no_comma(first);
    pieces_hold_no_comma(second);
    if second.len() == 0 {
        assert(whole.drop_last() =~= first);
        assert(comma_pieces(whole) =~= comma_pieces(first) + comma_pieces(second));
    } else {
        let rest = second.drop_last();
        commas_part_pieces(first, rest);
        pieces_hold_no_comma(rest);
        assert(whole.drop_last() =~= first + seq![','] + rest);
        assert(whole.last() == second.last());
        let before = comma_pieces(first) + comma_pieces(rest);
        assert(before.last() == comma_pieces(rest).last());
        assert(before.drop_last() =~= comma_pieces(first) + comma_pieces(rest).drop_last());
        assert(comma_pieces(whole) =~= comma_pieces(first) + comma_pieces(second));
    }
}

/// A text without a comma is one piece.
proof fn texts_without_comma_are_one_piece(text: Seq<char>)
    requires
        !text.contains(','),
    ensures
        comma_pieces(text) == seq![text],
    decreases text.len(),
{
    if text.len() > 0 {
        let rest = text.drop_last();
        assert(text[text.len() - 1] != ',');
        if rest.contains(',') {
            let k = rest.index_of(',');
            assert(text[k] == ',');
        }
        texts_without_comma_are_one_piece(rest);
        assert(rest.push(text.last()) =~= text);
        assert(comma_pieces(text) =~= seq![text]);
    } else {
        assert(text =~= Seq::empty());
    }
}

/// The names in two lists of pieces are those of the first and those of the second.
proof fn names_come_piece_by_piece(first: Seq<Seq<char>>, second: Seq<Seq<char>>)
    ensures
        named_pieces(first + second) == named_pieces(first) + named_pieces(second),
    decreases second.len(),
{
    if second.len() == 0 {
        assert(first + second =~= first);
        assert(named_pieces(first) + named_pieces(second) =~= named_pieces(first));
    } else {
        let rest = second.drop_last();
        names_come_piece_by_piece(first, rest);
        assert((first + second).drop_last() =~= first + rest);
        assert((first + second).last() == second.last());
        assert(named_pieces(first + second) =~= named_pieces(first) + named_pieces(second));
    }
}

/// The ids in a list are those before a comma, followed by those after it.
pub proof fn lists_are_read_from_comma_to_comma(
    list: &str,
    first: &str,
    second: &str,
    ids: Vec<String>,
    first_ids: Vec<String>,
    second_ids: Vec<String>,
)
    requires
        list@ == first@ + seq![','] + second@,
        call_ensures(case_ids, (list,), ids),
        call_ensures(case_ids, (first,), first_ids),
        call_ensures(case_ids, (second,), second_ids),
    ensures
        ids@.len() == first_ids@.len() + second_ids@.len(),
        forall|i: int| 0 <= i < first_ids@.len() ==> (#[trigger] ids@[i])@ == first_ids@[i]@,
        forall|i: int|
            first_ids@.len() <= i < ids@.len() ==> (#[trigger] ids@[i])@ == second_ids@[i
                - first_ids@.len()]@,
{
    commas_part_pieces(first@, second@);
    names_come_piece_by_piece(comma_pieces(first@), comma_pieces(second@));
    let all = text_views(ids@);
    let both = text_views(first_ids@) + text_views(second_ids@);
    assert(all == both);
    assert(all.len() == ids@.len());
    assert forall|i: int| 0 <= i < first_ids@.len() implies (#[trigger] ids@[i])@
        == first_ids@[i]@ by {
        assert(all[i] == both[i]);
    }
    assert forall|i: int| first_ids@.len() <= i < ids@.len() implies (#[trigger] ids@[i])@
        == second_ids@[i - first_ids@.len()]@ by {
        assert(all[i] == both[i]);
    }
}

/// A list without a comma names the one id that is left of it when it is trimmed, if anything
/// is.
pub proof fn lists_without_comma_name_one_id(piece: &str, cut: String, ids: Vec<String>)
    requires
        !piece@.contains(','),
        call_ensures(trim, (piece,), cut),
        call_ensures(case_ids, (piece,), ids),
    ensures
        cut@.len() == 0 ==> ids@.len() == 0,
        cut@.len() > 0 ==> ids@.len() == 1 && ids@[0]@ == cut@,
{
    texts_without_comma_are_one_piece(piece@);
    let pieces = seq![piece@];
    assert(pieces.drop_last() =~= Seq::empty());
    assert(named_pieces(pieces.drop_last()) =~= Seq::empty());
    let all = text_views(ids@);
    assert(all == named_pieces(pieces));
    assert(all.len() == ids@.len());
    if cut@.len() > 0 {
        assert(all[0] == cut@);
    }
}

/// A list that names some case: it holds more than commas and white space.
pub open spec fn names_some_case(list: Seq<char>) -> bool {
    exists|i: int| 0 <= i < list.len() && #[trigger] list[i] != ',' && !is_white_space(list[i])
}

/// All pieces of a text are blank exactly where it holds commas and white space only.
proof fn blank_pieces(text: Seq<char>)
    ensures
        (forall|i: int|
            0 <= i < comma_pieces(text).len() ==> is_blank_text(#[trigger] comma_pieces(text)[i]))
            == !names_some_case(text),
    decreases text.len(),
{
    pieces_hold_no_comma(text);
    let after = comma_pieces(text);
    if text.len() == 0 {
        assert(after[0].len() == 0);
    } else {
        let rest = text.drop_last();
        let before = comma_pieces(rest);
        blank_pieces(rest);
        pieces_hold_no_comma(rest);
        let c = text.last();
        assert(names_some_case(text) == (names_some_case(rest) || (c != ',' && !is_white_space(
            c,
        )))) by {
            if names_some_case(rest) {
                let k = choose|k: int|
                    0 <= k < rest.len() && #[trigger] rest[k] != ',' && !is_white_space(rest[k]);
                assert(text[k] != ',' && !is_white_space(text[k]));
            }
            if c != ',' && !is_white_space(c) {
                assert(text[text.len() - 1] == c);
            }
            if names_some_case(text) {
                let k = choose|k: int|
                    0 <= k < text.len() && #[trigger] text[k] != ',' && !is_white_space(text[k]);
                if k < rest.len() {
                    assert(rest[k] == text[k]);
                }
            }
        }
        if c == ',' {
            assert(after =~= before.push(Seq::empty()));
            if forall|i: int| 0 <= i < after.len() ==> is_blank_text(#[trigger] after[i]) {
                assert forall|i: int| 0 <= i < before.len() implies is_blank_text(
                    #[trigger] before[i],
                ) by {
                    assert(after[i] == before[i]);
                }
            }
            if forall|i: int| 0 <= i < before.len() ==> is_blank_text(#[trigger] before[i]) {
                assert forall|i: int| 0 <= i < after.len() implies is_blank_text(
                    #[trigger] after[i],
                ) by {
                    if i < before.len() {
                        assert(after[i] == before[i]);
                    }
                }
            }
        } else {
            let last = before.len() - 1;
            let piece = before[last];
            let longer = piece.push(c);
            assert(after =~= before.update(last, longer));
            assert(is_blank_text(longer) == (is_blank_text(piece) && is_white_space(c))) by {
                if is_blank_text(longer) {
                    assert(longer[piece.len() as int] == c);
                    assert forall|i: int| 0 <= i < piece.len() implies is_white_space(
                        #[trigger] piece[i],
                    ) by {
                        assert(longer[i] == piece[i]);
                    }
                }
                if is_blank_text(piece) && is_white_space(c) {
                    assert forall|i: int| 0 <= i < longer.len() implies is_white_space(
                        #[trigger] longer[i],
                    ) by {
                        if i < piece.len() {
                            assert(longer[i] == piece[i]);
                        }
                    }
                }
            }
            assert(after[last] == longer);
            if forall|i: int| 0 <= i < after.len() ==> is_blank_text(#[trigger] after[i]) {
                assert forall|i: int| 0 <= i < before.len() implies is_blank_text(
                    #[trigger] before[i],
                ) by {
                    assert(is_blank_text(after[i]));
                }
                assert(is_blank_text(after[last]));
            }
            if (forall|i: int| 0 <= i < before.len() ==> is_blank_text(#[trigger] before[i]))
                && is_white_space(c) {
                assert forall|i: int| 0 <= i < after.len() implies is_blank_text(
                    #[trigger] after[i],
                ) by {
                    assert(is_blank_text(before[i]));
                }
            }
        }
    }
}

/// Pieces give no name exactly where all of them are blank.
proof fn blank_pieces_give_no_name(pieces: Seq<Seq<char>>)
    ensures
        (named_pieces(pieces).len() == 0) == forall|i: int|
            0 <= i < pieces.len() ==> is_blank_text(#[trigger] pieces[i]),
    decreases pieces.len(),
{
    if pieces.len() > 0 {
        let rest = pieces.drop_last();
        blank_pieces_give_no_name(rest);
        blank_texts_trim_to_nothing(pieces.last());
        if named_pieces(pieces).len() == 0 {
            assert forall|i: int| 0 <= i < pieces.len() implies is_blank_text(
                #[trigger] pieces[i],
            ) by {
                if i < rest.len() {
                    assert(rest[i] == pieces[i]);
                }
            }
        }
        if forall|i: int| 0 <= i < pieces.len() ==> is_blank_text(#[trigger] pieces[i]) {
            assert(is_blank_text(pieces[pieces.len() - 1]));
            assert forall|i: int| 0 <= i < rest.len() implies is_blank_text(#[trigger] rest[i]) by {
                assert(rest[i] == pieces[i]);
            }
        }
    }
}

/// A list has ids exactly where it names some case.
proof fn lists_have_ids_where_they_name_a_case(list: Seq<char>)
    ensures
        (case_ids_in(list).len() > 0) == names_some_case(list),
{
    blank_pieces(list);
    blank_pieces_give_no_name(comma_pieces(list));
}

/// Flags with their values, one after the other.
pub open spec fn laid_out(settings: Seq<(Seq<char>, Seq<char>)>) -> Seq<Seq<char>>
    decreases settings.len(),
{
    if settings.len() == 0 {
        Seq::empty()
    } else {
        laid_out(settings.drop_last()) + seq![settings.last().0, settings.last().1]
    }
}

/// A flag that takes a value, with a value that it can have.
pub open spec fn is_setting(setting: (Seq<char>, Seq<char>)) -> bool {
    setting.0 == "--manifest"@ || setting.0 == "--lib"@ || setting.0 == "--out"@ || (setting.0
        == "--cases"@ && names_some_case(setting.1))
}

/// The setting at `at` is the last one of its flag.
pub open spec fn is_last_of(
    settings: Seq<(Seq<char>, Seq<char>)>,
    flag: Seq<char>,
    at: int,
) -> bool {
    &&& 0 <= at < settings.len()
    &&& settings[at].0 == flag
    &&& forall|i: int| at < i < settings.len() ==> (#[trigger] settings[i]).0 != flag
}

/// Some setting is for the flag.
pub open spec fn is_set(settings: Seq<(Seq<char>, Seq<char>)>, flag: Seq<char>) -> bool {
    exists|i: int| 0 <= i < settings.len() && (#[trigger] settings[i]).0 == flag
}

/// The flags after settings.
spec fn applied(settings: Seq<(Seq<char>, Seq<char>)>) -> CliView
    decreases settings.len(),
{
    if settings.len() == 0 {
        no_flags()
    } else {
        with_flag(applied(settings.drop_last()), settings.last().0, settings.last().1)
    }
}

/// The flags are all different.
proof fn flags_differ()
    ensures
        "--manifest"@ != "--lib"@,
        "--manifest"@ != "--out"@,
        "--manifest"@ != "--cases"@,
        "--lib"@ != "--out"@,
        "--lib"@ != "--cases"@,
        "--out"@ != "--cases"@,
        "-h"@ != "--manifest"@ && "-h"@ != "--lib"@ && "-h"@ != "--out"@ && "-h"@ != "--cases"@,
        "--help"@ != "--manifest"@ && "--help"@ != "--lib"@ && "--help"@ != "--out"@ && "--help"@
            != "--cases"@,
{
    reveal_strlit("--manifest");
    reveal_strlit("--lib");
    reveal_strlit("--out");
    reveal_strlit("--cases");
    reveal_strlit("-h");
    reveal_strlit("--help");
    assert("--manifest"@[2] == 'm' && "--lib"@[2] == 'l' && "--out"@[2] == 'o' && "--cases"@[2]
        == 'c' && "--help"@[2] == 'h' && "-h"@[1] == 'h');
    assert("--manifest"@[1] == '-' && "--lib"@[1] == '-' && "--out"@[1] == '-' && "--cases"@[1]
        == '-');
}

/// Settings are read one by one, and then the rest.
proof fn settings_are_read(settings: Seq<(Seq<char>, Seq<char>)>, rest: Seq<Seq<char>>)
    requires
        forall|i: int| 0 <= i < settings.len() ==> is_setting(#[trigger] settings[i]),
    ensures
        read_args(laid_out(settings) + rest, no_flags()) == read_args(rest, applied(settings)),
    decreases settings.len(),
{
    flags_differ();
    if settings.len() == 0 {
        assert(laid_out(settings) + rest =~= rest);
    } else {
        let before = settings.drop_last();
        let flag = settings.last().0;
        let value = settings.last().1;
        let tail = seq![flag, value] + rest;
        assert(is_setting(settings[settings.len() - 1]));
        assert forall|i: int| 0 <= i < before.len() implies is_setting(#[trigger] before[i]) by {
            assert(before[i] == settings[i]);
        }
        settings_are_read(before, tail);
        assert(laid_out(settings) + rest =~= laid_out(before) + tail);
        assert(tail.skip(2) =~= rest);
        assert(tail[0] == flag && tail[1] == value);
        lists_have_ids_where_they_name_a_case(value);
        assert(takes_value(flag));
    }
}

/// Each flag has the value of its last setting.
proof fn last_settings_count(settings: Seq<(Seq<char>, Seq<char>)>, at: int)
    requires
        forall|i: int| 0 <= i < settings.len() ==> is_setting(#[trigger] settings[i]),
    ensures
        is_last_of(settings, "--manifest"@, at) ==> applied(settings).manifest == Some(
            settings[at].1,
        ),
        is_last_of(settings, "--lib"@, at) ==> applied(settings).lib == Some(settings[at].1),
        is_last_of(settings, "--out"@, at) ==> applied(settings).out == Some(settings[at].1),
        is_last_of(settings, "--cases"@, at) ==> applied(settings).cases == Some(
            case_ids_in(settings[at].1),
        ),
        applied(settings).manifest is Some == is_set(settings, "--manifest"@),
        applied(settings).lib is Some == is_set(settings, "--lib"@),
        applied(settings).out is Some == is_set(settings, "--out"@),
        applied(settings).cases is Some == is_set(settings, "--cases"@),
    decreases settings.len(),
{
    flags_differ();
    if settings.len() > 0 {
        let before = settings.drop_last();
        let last = settings[settings.len() - 1];
        assert(is_setting(last));
        assert forall|i: int| 0 <= i < before.len() implies is_setting(#[trigger] before[i]) by {
            assert(before[i] == settings[i]);
        }
        last_settings_count(before, at);
        assert forall|flag: Seq<char>| #[trigger] is_set(settings, flag) == (is_set(before, flag)
            || last.0 == flag) by {
            if is_set(before, flag) {
                let k = choose|k: int| 0 <= k < before.len() && (#[trigger] before[k]).0 == flag;
                assert(settings[k].0 == flag);
            }
            if is_set(settings, flag) {
                let k = choose|k: int|
                    0 <= k < settings.len() && (#[trigger] settings[k]).0 == flag;
                if k < before.len() {
                    assert(before[k].0 == flag);
                }
            }
        }
        assert forall|flag: Seq<char>|
            at < before.len() && #[trigger] is_last_of(settings, flag, at) implies is_last_of(
            before,
            flag,
            at,
        ) && last.0 != flag by {
            assert forall|i: int| at < i < before.len() implies (#[trigger] before[i]).0 != flag by {
                assert(settings[i].0 != flag);
            }
        }
    }
}

/// A command line of settings asks for a run exactly where a manifest, a library and an output
/// path are set, and the first of these that is not set is told. The run has the values of the
/// last settings, as they were given, and the cases of the last list of cases, if there is one.
pub proof fn settings_make_a_run(
    settings: Seq<(Seq<char>, Seq<char>)>,
    args: Vec<String>,
    at: int,
    list: &str,
    ids: Vec<String>,
    r: Result<CliRequest, String>,
)
    requires
        forall|i: int| 0 <= i < settings.len() ==> is_setting(#[trigger] settings[i]),
        text_views(args@) == laid_out(settings),
        call_ensures(parse_cli, (&args,), r),
        call_ensures(case_ids, (list,), ids),
    ensures
        r is Ok == (is_set(settings, "--manifest"@) && is_set(settings, "--lib"@) && is_set(
            settings,
            "--out"@,
        )),
        r matches Ok(request) ==> request is Run,
        r matches Ok(CliRequest::Run(cli)) ==> {
            &&& is_last_of(settings, "--manifest"@, at) ==> cli.manifest@ == settings[at].1
            &&& is_last_of(settings, "--lib"@, at) ==> cli.lib@ == settings[at].1
            &&& is_last_of(settings, "--out"@, at) ==> cli.out@ == settings[at].1
            &&& cli.cases is Some == is_set(settings, "--cases"@)
            &&& is_last_of(settings, "--cases"@, at) && list@ == settings[at].1 ==> text_views(
                (cli.cases->0)@,
            ) == text_views(ids@)
        },
        !is_set(settings, "--manifest"@) ==> r->Err_0@ == "missing --manifest"@,
        is_set(settings, "--manifest"@) && !is_set(settings, "--lib"@) ==> r->Err_0@
            == "missing --lib"@,
        is_set(settings, "--manifest"@) && is_set(settings, "--lib"@) && !is_set(
            settings,
            "--out"@,
        ) ==> r->Err_0@ == "missing --out"@,
{
    settings_are_read(settings, Seq::empty());
    assert(laid_out(settings) + Seq::<Seq<char>>::empty() =~= laid_out(settings));
    last_settings_count(settings, at);
    if is_last_of(settings, "--cases"@, at) {
        assert(is_set(settings, "--cases"@));
    }
}

/// The first argument that is no setting decides: a request for help is granted, a flag at the
/// end lacks its value, a list of cases that names none is a fault, and so is everything else.
pub proof fn first_other_argument_decides(
    settings: Seq<(Seq<char>, Seq<char>)>,
    rest: Seq<Seq<char>>,
    args: Vec<String>,
    r: Result<CliRequest, String>,
)
    requires
        forall|i: int| 0 <= i < settings.len() ==> is_setting(#[trigger] settings[i]),
        rest.len() > 0,
        text_views(args@) == laid_out(settings) + rest,
        call_ensures(parse_cli, (&args,), r),
    ensures
        ({
            let valued = rest[0] == "--manifest"@ || rest[0] == "--lib"@ || rest[0] == "--out"@
                || rest[0] == "--cases"@;
            let help = rest[0] == "-h"@ || rest[0] == "--help"@;
            &&& help ==> r is Ok && r->Ok_0 is Help
            &&& valued && rest.len() == 1 ==> r is Err && r->Err_0@ == "missing value after "@
                + rest[0]
            &&& rest[0] == "--cases"@ && rest.len() > 1 && !names_some_case(rest[1]) ==> r is Err
                && r->Err_0@ == "--cases must contain at least one case id"@
            &&& !help && !valued ==> r is Err && r->Err_0@ == "unknown argument "@ + quoted_text(
                rest[0],
            ) + "; use --help"@
        }),
{
    flags_differ();
    settings_are_read(settings, rest);
    if rest.len() > 1 {
        lists_have_ids_where_they_name_a_case(rest[1]);
    }
}

/// The value that follows a flag is the next argument, as it is.
pub proof fn values_are_the_next_argument(
    args: Vec<String>,
    at: usize,
    flag: &str,
    r: Result<String, String>,
)
    requires
        call_ensures(next_value, (&args, at, flag), r),
    ensures
        r is Ok == (at < args@.len()),
        r matches Ok(value) ==> value@ == args@[at as int]@,
        r matches Err(message) ==> message@ == "missing value after "@ + flag@,
{
}

} // verus!
