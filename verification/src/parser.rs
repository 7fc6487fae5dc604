//! Parsers: rules that cut a message into parts, with the aggregation
//! method of each part.
use vstd::prelude::*;
use crate::aggregators::AggregationMethod;
use crate::error::{ErrorView, LogriaError};
use crate::pattern::{regex_capture_groups, text_regex_error, TextPattern};
use crate::split::{split_spec, split_str};

verus! {

/// How a parser cuts a message.
#[derive(Debug, Clone, Copy, PartialEq, Eq, Structural)]
pub enum PatternType {
    /// At each occurrence of the pattern text.
    Split,
    /// Into the capture groups of the pattern.
    Regex,
}

/// A parser as saved by the user.
pub struct Parser {
    pub pattern: String,
    pub pattern_type: PatternType,
    /// A message the parser is meant for.
    pub example: String,
    /// The names of the parts, in order.
    pub order: Vec<String>,
    /// The aggregation method of each named part; names are distinct.
    pub aggregation_methods: Vec<(String, AggregationMethod)>,
}

/// The names of the aggregation methods.
pub open spec fn method_names(m: Seq<(String, AggregationMethod)>) -> Seq<Seq<char>> {
    m.map_values(|p: (String, AggregationMethod)| p.0@)
}

/// The groups of a match after the whole match, all of which took part.
pub open spec fn groups_present(g: Seq<Option<Seq<char>>>) -> bool {
    forall|i: int| 1 <= i < g.len() ==> (#[trigger] g[i]) is Some
}

/// The texts of the groups after the whole match.
pub open spec fn group_texts(g: Seq<Option<Seq<char>>>) -> Seq<Seq<char>> {
    g.drop_first().map_values(|o: Option<Seq<char>>| o->Some_0)
}

/// What `get_example` gives for a parser, before the count of the parts
/// is held against the number of aggregation methods.
pub open spec fn example_parts(t: PatternType, pattern: Seq<char>, example: Seq<char>) -> Result<Seq<Seq<char>>, ErrorView> {
    match t {
        PatternType::Regex => match text_regex_error(pattern) {
            Some(e) => Err(ErrorView::InvalidRegex(e, pattern)),
            None => match regex_capture_groups(pattern, example) {
                Some(g) => Ok(group_texts(g)),
                None => Err(ErrorView::InvalidExampleRegex(pattern)),
            },
        },
        PatternType::Split => Ok(split_spec(example, pattern)),
    }
}

/// What `get_example` gives: the parts of the example, which must be as
/// many as the aggregation methods.
pub open spec fn example_result(t: PatternType, pattern: Seq<char>, example: Seq<char>, methods: nat) -> Result<Seq<Seq<char>>, ErrorView> {
    match example_parts(t, pattern, example) {
        Ok(parts) => if parts.len() == methods {
            Ok(parts)
        } else {
            Err(ErrorView::InvalidExampleSplit(parts.len() as usize, methods as usize))
        },
        Err(e) => Err(e),
    }
}

/// Whether reading the example's groups can go through: for a regex
/// parser whose pattern matches the example, every group took part.
pub open spec fn example_readable(t: PatternType, pattern: Seq<char>, example: Seq<char>) -> bool {
    t == PatternType::Regex && text_regex_error(pattern) is None ==> match regex_capture_groups(pattern, example) {
        Some(g) => groups_present(g),
        None => true,
    }
}

impl Parser {
    /// Names are distinct among the aggregation methods.
    pub open spec fn wf(&self) -> bool {
        method_names(self.aggregation_methods@).no_duplicates()
    }

    /// A parser from its parts.
    pub fn new(
        pattern: String,
        pattern_type: PatternType,
        example: String,
        order: Vec<String>,
        aggregation_methods: Vec<(String, AggregationMethod)>,
    ) -> (r: Parser)
        ensures
            r.pattern@ == pattern@,
            r.pattern_type == pattern_type,
            r.example@ == example@,
            r.order@ == order@,
            r.aggregation_methods@ == aggregation_methods@,
    {
        Parser { pattern, pattern_type, example, order, aggregation_methods }
    }

    /// The compiled pattern of a regex parser.
    pub fn get_regex(&self) -> (r: Result<TextPattern, LogriaError>)
        ensures
            self.pattern_type == PatternType::Split ==> (r matches Err(e) && e@ == ErrorView::WrongParserType),
            self.pattern_type == PatternType::Regex ==> match r {
                Ok(p) => p@ == self.pattern@ && text_regex_error(self.pattern@) is None,
                Err(e) => text_regex_error(self.pattern@) matches Some(m) && e@ == ErrorView::InvalidRegex(m, self.pattern@),
            },
    {
        if self.pattern_type == PatternType::Regex {
            match TextPattern::new(self.pattern.as_str()) {
                Ok(p) => Ok(p),
                Err(why) => Err(LogriaError::InvalidRegex(why, self.pattern.clone())),
            }
        } else {
            Err(LogriaError::WrongParserType)
        }
    }

    /// The parts the parser cuts its example into.
    pub fn get_example(&self) -> (r: Result<Vec<String>, LogriaError>)
        requires
            example_readable(self.pattern_type, self.pattern@, self.example@),
        ensures
            match (r, example_result(self.pattern_type, self.pattern@, self.example@, self.aggregation_methods@.len())) {
                (Ok(v), Ok(parts)) => v@.map_values(|s: String| s@) == parts,
                (Err(e), Err(ev)) => e@ == ev,
                _ => false,
            },
    {
        let mut example: Vec<String> = Vec::new();
        match self.pattern_type {
            PatternType::Regex => match self.get_regex() {
                Ok(regex) => match regex.capture_groups(self.example.as_str()) {
                    Some(groups) => {
                        let ghost g = regex_capture_groups(self.pattern@, self.example@)->Some_0;
                        let mut i: usize = 1;
                        while i < groups.len()
                            invariant
                                1 <= i <= groups@.len(),
                                groups@.len() == g.len(),
                                groups_present(g),
                                forall|k: int| 0 <= k < groups@.len() ==> match #[trigger] groups@[k] {
                                    Some(s) => g[k] == Some(s@),
                                    None => g[k] is None,
                                },
                                example@.map_values(|s: String| s@) == group_texts(g).subrange(0, i - 1),
                            decreases groups@.len() - i,
                        {
                            let ghost before = example@.map_values(|s: String| s@);
                            match &groups[i] {
                                Some(text) => {
                                    example.push(text.clone());
                                    assert(group_texts(g)[i - 1] == text@);
                                    assert(example@.map_values(|s: String| s@) =~= before.push(text@));
                                    assert(group_texts(g).subrange(0, i as int) =~= group_texts(g).subrange(0, i - 1).push(text@));
                                },
                                None => {
                                    assert(g[i as int] is Some);
                                },
                            }
                            assert(example@.map_values(|s: String| s@) =~= group_texts(g).subrange(0, i as int));
                            i = i + 1;
                        }
                        assert(group_texts(g).subrange(0, g.len() - 1) =~= group_texts(g));
                    },
                    None => {
                        return Err(LogriaError::InvalidExampleRegex(self.pattern.clone()));
                    },
                },
                Err(why) => {
                    return Err(why);
                },
            },
            PatternType::Split => {
                example = split_str(self.example.as_str(), self.pattern.as_str());
            },
        }
        if example.len() != self.aggregation_methods.len() {
            return Err(LogriaError::InvalidExampleSplit(example.len(), self.aggregation_methods.len()));
        }
        Ok(example)
    }

    /// Whether the example's groups can be read (see `example_readable`).
    pub fn example_is_readable(&self) -> (r: bool)
        ensures
            r == example_readable(self.pattern_type, self.pattern@, self.example@),
    {
        if self.pattern_type != PatternType::Regex {
            return true;
        }
        match TextPattern::new(self.pattern.as_str()) {
            Err(_) => true,
            Ok(regex) => match regex.capture_groups(self.example.as_str()) {
                None => true,
                Some(groups) => {
                    let ghost g = regex_capture_groups(self.pattern@, self.example@)->Some_0;
                    let mut i: usize = 1;
                    while i < groups.len()
                        invariant
                            1 <= i,
                            self.pattern_type == PatternType::Regex,
                            text_regex_error(self.pattern@) is None,
                            regex_capture_groups(self.pattern@, self.example@) == Some(g),
                            groups@.len() == g.len(),
                            forall|k: int| 0 <= k < groups@.len() ==> match #[trigger] groups@[k] {
                                Some(s) => g[k] == Some(s@),
                                None => g[k] is None,
                            },
                            forall|k: int| 1 <= k < i && k < g.len() ==> (#[trigger] g[k]) is Some,
                        decreases groups@.len() - i,
                    {
                        if groups[i].is_none() {
                            assert(g[i as int] is None);
                            return false;
                        }
                        i = i + 1;
                    }
                    true
                },
            },
        }
    }

    /// The parts of the example, or `None` when a group of the example's
    /// match took no part, on which the parts cannot be read.
    pub fn get_example_checked(&self) -> (r: Option<Result<Vec<String>, LogriaError>>)
        ensures
            r is None <==> !example_readable(self.pattern_type, self.pattern@, self.example@),
            r matches Some(res) ==> match (res, example_result(self.pattern_type, self.pattern@, self.example@, self.aggregation_methods@.len())) {
                (Ok(v), Ok(parts)) => v@.map_values(|s: String| s@) == parts,
                (Err(e), Err(ev)) => e@ == ev,
                _ => false,
            },
    {
        if self.example_is_readable() {
            Some(self.get_example())
        } else {
            None
        }
    }
}

} // verus!
