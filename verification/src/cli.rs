//! The command-line surface: the argument grammar and its verified
//! parser. The grammar takes two positional arguments (file path and line
//! number), value options for format, sort order, traversal limit and the
//! two date bounds, and a repeatable ignored-revision option.

use vstd::prelude::*;

use crate::domain::SortOrder;
use crate::strutil::parse_decimal_spec;
use crate::strutil::parse_u32;
use crate::strutil::parse_usize;
use crate::strutil::str_eq;
use crate::strutil::str_matches;
use crate::strutil::str_matches_spec;

verus! {

/// The output rendering a caller selects.
#[derive(Debug, Clone, Copy, PartialEq, Eq, Structural)]
pub enum Format {
    Colored,
    Json,
    Table,
    Yaml,
}

/// Why a command line was rejected.
#[derive(Debug, Clone, Copy, PartialEq, Eq, Structural)]
pub enum CliError {
    /// A required positional argument is absent.
    MissingArgument,
    /// An option stands last, with no value after it.
    MissingValue,
    /// A single-valued option occurs twice.
    DuplicateOption,
    /// An option's value is not one of the accepted forms.
    InvalidValue,
    /// An argument looks like an option but is none of the known ones.
    UnknownOption,
    /// A third positional argument.
    UnexpectedArgument,
}

/// The format a name denotes, optionally blind to ASCII case.
pub open spec fn format_of(s: Seq<char>, ignore_case: bool) -> Option<Format> {
    if str_matches_spec(s, "colored"@, ignore_case) {
        Some(Format::Colored)
    } else if str_matches_spec(s, "json"@, ignore_case) {
        Some(Format::Json)
    } else if str_matches_spec(s, "table"@, ignore_case) {
        Some(Format::Table)
    } else if str_matches_spec(s, "yaml"@, ignore_case) {
        Some(Format::Yaml)
    } else {
        None
    }
}

impl Format {
    /// Reads a format name.
    pub fn from_str(s: &str, ignore_case: bool) -> (r: Result<Format, CliError>)
        ensures
            match format_of(s@, ignore_case) {
                Some(f) => r == Ok::<Format, CliError>(f),
                None => r == Err::<Format, CliError>(CliError::InvalidValue),
            },
    {
        if str_matches(s, "colored", ignore_case) {
            Ok(Format::Colored)
        } else if str_matches(s, "json", ignore_case) {
            Ok(Format::Json)
        } else if str_matches(s, "table", ignore_case) {
            Ok(Format::Table)
        } else if str_matches(s, "yaml", ignore_case) {
            Ok(Format::Yaml)
        } else {
            Err(CliError::InvalidValue)
        }
    }
}

/// The sort order a name denotes, optionally blind to ASCII case.
pub open spec fn sort_of(s: Seq<char>, ignore_case: bool) -> Option<SortOrder> {
    if str_matches_spec(s, "asc"@, ignore_case) {
        Some(SortOrder::Asc)
    } else if str_matches_spec(s, "desc"@, ignore_case) {
        Some(SortOrder::Desc)
    } else {
        None
    }
}

impl SortOrder {
    /// Reads a sort-order name.
    pub fn from_str(s: &str, ignore_case: bool) -> (r: Result<SortOrder, CliError>)
        ensures
            match sort_of(s@, ignore_case) {
                Some(o) => r == Ok::<SortOrder, CliError>(o),
                None => r == Err::<SortOrder, CliError>(CliError::InvalidValue),
            },
    {
        if str_matches(s, "asc", ignore_case) {
            Ok(SortOrder::Asc)
        } else if str_matches(s, "desc", ignore_case) {
            Ok(SortOrder::Desc)
        } else {
            Err(CliError::InvalidValue)
        }
    }
}

/// A parsed command line.
#[derive(Debug, Clone, PartialEq)]
pub struct Cli {
    pub file: String,
    pub line: u32,
    pub format: Format,
    pub limit: Option<usize>,
    pub sort: SortOrder,
    pub ignore_revs: Vec<String>,
    pub since: Option<String>,
    pub until: Option<String>,
}

/// The mathematical value of a `Cli`.
pub ghost struct CliView {
    pub file: Seq<char>,
    pub line: u32,
    pub format: Format,
    pub limit: Option<usize>,
    pub sort: SortOrder,
    pub ignore_revs: Seq<Seq<char>>,
    pub since: Option<Seq<char>>,
    pub until: Option<Seq<char>>,
}

/// The view of an optional owned string.
pub open spec fn opt_string_view(o: Option<String>) -> Option<Seq<char>> {
    match o {
        Some(s) => Some(s@),
        None => None,
    }
}

impl View for Cli {
    type V = CliView;

    open spec fn view(&self) -> CliView {
        CliView {
            file: self.file@,
            line: self.line,
            format: self.format,
            limit: self.limit,
            sort: self.sort,
            ignore_revs: self.ignore_revs@.map_values(|x: String| x@),
            since: opt_string_view(self.since),
            until: opt_string_view(self.until),
        }
    }
}

/// What the parser has gathered so far; `None` marks an option not seen
/// yet.
pub ghost struct ParseState {
    pub file: Option<Seq<char>>,
    pub line: Option<u32>,
    pub format: Option<Format>,
    pub limit: Option<usize>,
    pub sort: Option<SortOrder>,
    pub ignore_revs: Seq<Seq<char>>,
    pub since: Option<Seq<char>>,
    pub until: Option<Seq<char>>,
}

/// The parser before any argument.
pub open spec fn initial_state() -> ParseState {
    ParseState {
        file: None,
        line: None,
        format: None,
        limit: None,
        sort: None,
        ignore_revs: Seq::empty(),
        since: None,
        until: None,
    }
}

/// An argument that is treated as an option: two or more characters, the
/// first a dash.
pub open spec fn is_flag_like(a: Seq<char>) -> bool {
    a.len() >= 2 && a[0] == '-'
}

/// One step of the grammar per argument, from position `i` on: options
/// take the following argument as their value, a repeated single-valued
/// option or an unknown one is an error, and what is no option fills the
/// two positional slots in order.
pub open spec fn parse_args(args: Seq<Seq<char>>, i: int, st: ParseState) -> Result<
    ParseState,
    CliError,
>
    decreases args.len() - i,
{
    if i >= args.len() {
        Ok(st)
    } else {
        let a = args[i];
        if a == "--format"@ || a == "-f"@ {
            if st.format is Some {
                Err(CliError::DuplicateOption)
            } else if i + 1 >= args.len() {
                Err(CliError::MissingValue)
            } else {
                match format_of(args[i + 1], false) {
                    Some(f) => parse_args(args, i + 2, ParseState { format: Some(f), ..st }),
                    None => Err(CliError::InvalidValue),
                }
            }
        } else if a == "--sort"@ || a == "-s"@ {
            if st.sort is Some {
                Err(CliError::DuplicateOption)
            } else if i + 1 >= args.len() {
                Err(CliError::MissingValue)
            } else {
                match sort_of(args[i + 1], false) {
                    Some(o) => parse_args(args, i + 2, ParseState { sort: Some(o), ..st }),
                    None => Err(CliError::InvalidValue),
                }
            }
        } else if a == "--limit"@ || a == "-l"@ {
            if st.limit is Some {
                Err(CliError::DuplicateOption)
            } else if i + 1 >= args.len() {
                Err(CliError::MissingValue)
            } else {
                match parse_decimal_spec(args[i + 1], usize::MAX as int) {
                    Some(v) => parse_args(
                        args,
                        i + 2,
                        ParseState { limit: Some(v as usize), ..st },
                    ),
                    None => Err(CliError::InvalidValue),
                }
            }
        } else if a == "--ignore-rev"@ {
            if i + 1 >= args.len() {
                Err(CliError::MissingValue)
            } else {
                parse_args(
                    args,
                    i + 2,
                    ParseState { ignore_revs: st.ignore_revs.push(args[i + 1]), ..st },
                )
            }
        } else if a == "--since"@ {
            if st.since is Some {
                Err(CliError::DuplicateOption)
            } else if i + 1 >= args.len() {
                Err(CliError::MissingValue)
            } else {
                parse_args(args, i + 2, ParseState { since: Some(args[i + 1]), ..st })
            }
        } else if a == "--until"@ {
            if st.until is Some {
                Err(CliError::DuplicateOption)
            } else if i + 1 >= args.len() {
                Err(CliError::MissingValue)
            } else {
                parse_args(args, i + 2, ParseState { until: Some(args[i + 1]), ..st })
            }
        } else if is_flag_like(a) {
            Err(CliError::UnknownOption)
        } else if st.file is None {
            parse_args(args, i + 1, ParseState { file: Some(a), ..st })
        } else if st.line is None {
            match parse_decimal_spec(a, u32::MAX as int) {
                Some(v) => parse_args(args, i + 1, ParseState { line: Some(v as u32), ..st }),
                None => Err(CliError::InvalidValue),
            }
        } else {
            Err(CliError::UnexpectedArgument)
        }
    }
}

/// What a whole command line denotes: the first argument is the program
/// name, both positionals are required, and the format and sort order
/// default to `Colored` and `Asc`.
pub open spec fn cli_parse_spec(args: Seq<Seq<char>>) -> Result<CliView, CliError> {
    if args.len() == 0 {
        Err(CliError::MissingArgument)
    } else {
        match parse_args(args, 1, initial_state()) {
            Err(e) => Err(e),
            Ok(st) => match (st.file, st.line) {
                (Some(f), Some(l)) => Ok(
                    CliView {
                        file: f,
                        line: l,
                        format: match st.format {
                            Some(x) => x,
                            None => Format::Colored,
                        },
                        limit: st.limit,
                        sort: match st.sort {
                            Some(x) => x,
                            None => SortOrder::Asc,
                        },
                        ignore_revs: st.ignore_revs,
                        since: st.since,
                        until: st.until,
                    },
                ),
                _ => Err(CliError::MissingArgument),
            },
        }
    }
}

/// The views of a vector of strings.
pub open spec fn arg_views(s: Seq<String>) -> Seq<Seq<char>> {
    s.map_values(|x: String| x@)
}

impl Cli {
    /// Parses a full command line, program name first.
    pub fn parse_from(args: &Vec<String>) -> (r: Result<Cli, CliError>)
        ensures
            match (r, cli_parse_spec(arg_views(args@))) {
                (Ok(c), Ok(v)) => c@ == v,
                (Err(e1), Err(e2)) => e1 == e2,
                _ => false,
            },
    {
        let ghost av = arg_views(args@);
        if args.len() == 0 {
            return Err(CliError::MissingArgument);
        }
        let mut file: Option<String> = None;
        let mut line: Option<u32> = None;
        let mut format: Option<Format> = None;
        let mut limit: Option<usize> = None;
        let mut sort: Option<SortOrder> = None;
        let mut ignore_revs: Vec<String> = Vec::new();
        let mut since: Option<String> = None;
        let mut until: Option<String> = None;
        let mut i: usize = 1;
        proof {
            assert(ignore_revs@.map_values(|x: String| x@) =~= Seq::<Seq<char>>::empty());
        }
        while i < args.len()
            invariant
                1 <= i <= args@.len(),
                av == arg_views(args@),
                parse_args(av, 1, initial_state()) == parse_args(
                    av,
                    i as int,
                    (ParseState {
                        file: opt_string_view(file),
                        line: line,
                        format: format,
                        limit: limit,
                        sort: sort,
                        ignore_revs: ignore_revs@.map_values(|x: String| x@),
                        since: opt_string_view(since),
                        until: opt_string_view(until),
                    }),
                ),
            decreases args@.len() - i,
        {
            proof {
                assert(av[i as int] == args@[i as int]@);
                if i + 1 < args@.len() {
                    assert(av[i + 1] == args@[i + 1]@);
                }
            }
            let a = &args[i];
            if str_eq(a.as_str(), "--format") || str_eq(a.as_str(), "-f") {
                if format.is_some() {
                    return Err(CliError::DuplicateOption);
                }
                if i + 1 >= args.len() {
                    return Err(CliError::MissingValue);
                }
                match Format::from_str(args[i + 1].as_str(), false) {
                    Ok(f) => {
                        format = Some(f);
                    },
                    Err(e) => {
                        return Err(e);
                    },
                }
                i = i + 2;
            } else if str_eq(a.as_str(), "--sort") || str_eq(a.as_str(), "-s") {
                if sort.is_some() {
                    return Err(CliError::DuplicateOption);
                }
                if i + 1 >= args.len() {
                    return Err(CliError::MissingValue);
                }
                match SortOrder::from_str(args[i + 1].as_str(), false) {
                    Ok(o) => {
                        sort = Some(o);
                    },
                    Err(e) => {
                        return Err(e);
                    },
                }
                i = i + 2;
            } else if str_eq(a.as_str(), "--limit") || str_eq(a.as_str(), "-l") {
                if limit.is_some() {
                    return Err(CliError::DuplicateOption);
                }
                if i + 1 >= args.len() {
                    return Err(CliError::MissingValue);
                }
                match parse_usize(args[i + 1].as_str()) {
                    Some(v) => {
                        limit = Some(v);
                    },
                    None => {
                        return Err(CliError::InvalidValue);
                    },
                }
                i = i + 2;
            } else if str_eq(a.as_str(), "--ignore-rev") {
                if i + 1 >= args.len() {
                    return Err(CliError::MissingValue);
                }
                let ghost before = ignore_revs@.map_values(|x: String| x@);
                let v = args[i + 1].clone();
                ignore_revs.push(v);
                proof {
                    assert(ignore_revs@.map_values(|x: String| x@) =~= before.push(av[i + 1]));
                }
                i = i + 2;
            } else if str_eq(a.as_str(), "--since") {
                if since.is_some() {
                    return Err(CliError::DuplicateOption);
                }
                if i + 1 >= args.len() {
                    return Err(CliError::MissingValue);
                }
                since = Some(args[i + 1].clone());
                i = i + 2;
            } else if str_eq(a.as_str(), "--until") {
                if until.is_some() {
                    return Err(CliError::DuplicateOption);
                }
                if i + 1 >= args.len() {
                    return Err(CliError::MissingValue);
                }
                until = Some(args[i + 1].clone());
                i = i + 2;
            } else if a.as_str().unicode_len() >= 2 && a.as_str().get_char(0) == '-' {
                return Err(CliError::UnknownOption);
            } else if file.is_none() {
                file = Some(a.clone());
                i = i + 1;
            } else if line.is_none() {
                match parse_u32(a.as_str()) {
                    Some(v) => {
                        line = Some(v);
                    },
                    None => {
                        return Err(CliError::InvalidValue);
                    },
                }
                i = i + 1;
            } else {
                return Err(CliError::UnexpectedArgument);
            }
        }
        let f = match file {
            Some(x) => x,
            None => {
                return Err(CliError::MissingArgument);
            },
        };
        let l = match line {
            Some(x) => x,
            None => {
                return Err(CliError::MissingArgument);
            },
        };
        let cli = Cli {
            file: f,
            line: l,
            format: match format {
                Some(x) => x,
                None => Format::Colored,
            },
            limit,
            sort: match sort {
                Some(x) => x,
                None => SortOrder::Asc,
            },
            ignore_revs,
            since,
            until,
        };
        Ok(cli)
    }
}

} // verus!
