//! Reading the text reports of the service manager.

use vstd::prelude::*;
use crate::launchctl::LaunchctlResult;
use crate::text::{
    chars_of, find, find_chars, join, join_from, lines, occurs_at_exec, parse_number, parse_u32,
    split_lines, split_tokens, starts_with, substring, tokens, trim, trim_str,
};

verus! {

/// What a domain report says of one service: its process id, if it runs;
/// the exit code of its last run; its name.
pub type ServiceFact = (Option<u32>, Option<String>, String);

/// `ServiceFact`, with its texts as sequences of characters.
pub type FactView = (Option<u32>, Option<Seq<char>>, Seq<char>);

/// What a service report says of its service: process id, last exit code,
/// name, and the path of its definition.
pub type ServiceDetail = (Option<u32>, Option<String>, String, Option<String>);

/// `ServiceDetail`, with its texts as sequences of characters.
pub type DetailView = (Option<u32>, Option<Seq<char>>, Seq<char>, Option<Seq<char>>);

/// The part of a domain report that lists the services: what stands
/// between the first `services = {` and the next `}`, or the end of the
/// report where no `}` follows. A report without the marker has no such
/// part.
pub open spec fn services_section(output: Seq<char>) -> Option<Seq<char>> {
    match find(output, "services = {"@) {
        None => None,
        Some(pos) => {
            let rest = output.skip(pos + "services = {"@.len());
            match find(rest, "}"@) {
                Some(close) => Some(rest.take(close)),
                None => Some(rest),
            }
        },
    }
}

/// What one line of the services section says: its first word is the
/// process id (absent where the word is no number), its second the exit
/// code, and the words from the third on, with single spaces between them,
/// are the name. A line of fewer than three words says nothing.
pub open spec fn line_fact(line: Seq<char>) -> Option<FactView> {
    let words = tokens(line);
    if words.len() < 3 {
        None
    } else {
        Some((parse_u32(words[0]), Some(words[1]), join(words.skip(2), " "@)))
    }
}

/// What the lines say, in their order; lines that say nothing are passed
/// over.
pub open spec fn line_facts(lines: Seq<Seq<char>>) -> Seq<FactView>
    decreases lines.len(),
{
    if lines.len() == 0 {
        Seq::empty()
    } else {
        match line_fact(lines.last()) {
            Some(fact) => line_facts(lines.drop_last()).push(fact),
            None => line_facts(lines.drop_last()),
        }
    }
}

/// Whether a line holds words, but fewer than the three that a fact
/// takes. A line without a word is empty, and no such line.
pub open spec fn is_short(line: Seq<char>) -> bool {
    0 < tokens(line).len() < 3
}

/// The lines among `lines` that hold too few words, in their order.
pub open spec fn short_lines(lines: Seq<Seq<char>>) -> Seq<Seq<char>>
    decreases lines.len(),
{
    if lines.len() == 0 {
        Seq::empty()
    } else if is_short(lines.last()) {
        short_lines(lines.drop_last()).push(lines.last())
    } else {
        short_lines(lines.drop_last())
    }
}

/// The lines of the services section of a domain report; none where the
/// report has no such section.
pub open spec fn section_lines(output: Seq<char>) -> Seq<Seq<char>> {
    match services_section(output) {
        Some(section) => lines(section),
        None => Seq::empty(),
    }
}

/// What a domain report says of the services of its domain. A run that
/// failed says nothing.
pub open spec fn domain_facts(result: LaunchctlResult) -> Seq<FactView> {
    if result.succeeded() {
        line_facts(section_lines(result.output@))
    } else {
        Seq::empty()
    }
}

/// The lines of a domain report's services section that hold too few
/// words to be read. The caller may warn of them.
pub open spec fn domain_skipped(result: LaunchctlResult) -> Seq<Seq<char>> {
    if result.succeeded() {
        short_lines(section_lines(result.output@))
    } else {
        Seq::empty()
    }
}

/// Whether `line`, trimmed, begins with `key`.
pub open spec fn has_key(line: Seq<char>, key: Seq<char>) -> bool {
    starts_with(trim(line), key)
}

/// What follows `key` in `line`, trimmed.
pub open spec fn value_after(line: Seq<char>, key: Seq<char>) -> Seq<char> {
    trim(trim(line).skip(key.len() as int))
}

/// The value of the first line that has the key.
pub open spec fn keyed_value(lines: Seq<Seq<char>>, key: Seq<char>) -> Option<Seq<char>>
    decreases lines.len(),
{
    if lines.len() == 0 {
        None
    } else if has_key(lines[0], key) {
        Some(value_after(lines[0], key))
    } else {
        keyed_value(lines.skip(1), key)
    }
}

/// Where one line alone has the key, its value is found wherever the
/// line stands.
pub proof fn lemma_keyed_value_of_only_line(lines: Seq<Seq<char>>, key: Seq<char>, k: int)
    requires
        0 <= k < lines.len(),
        has_key(lines[k], key),
        forall|j: int| 0 <= j < lines.len() && j != k ==> !has_key(#[trigger] lines[j], key),
    ensures
        keyed_value(lines, key) == Some(value_after(lines[k], key)),
    decreases lines.len(),
{
    if k > 0 {
        let rest = lines.skip(1);
        assert(rest[k - 1] == lines[k]);
        assert forall|j: int| 0 <= j < rest.len() && j != k - 1 implies !has_key(
            #[trigger] rest[j],
            key,
        ) by {
            assert(rest[j] == lines[j + 1]);
        }
        lemma_keyed_value_of_only_line(rest, key, k - 1);
    }
}

/// Where no line has the key, there is no value.
pub proof fn lemma_keyed_value_absent(lines: Seq<Seq<char>>, key: Seq<char>)
    requires
        forall|j: int| 0 <= j < lines.len() ==> !has_key(#[trigger] lines[j], key),
    ensures
        keyed_value(lines, key) is None,
    decreases lines.len(),
{
    if lines.len() > 0 {
        let rest = lines.skip(1);
        assert forall|j: int| 0 <= j < rest.len() implies !has_key(#[trigger] rest[j], key) by {
            assert(rest[j] == lines[j + 1]);
        }
        lemma_keyed_value_absent(rest, key);
    }
}

/// The name that heads a service report: its first line up to the first
/// ` = {`, trimmed.
pub open spec fn report_name(first_line: Seq<char>) -> Seq<char> {
    match find(first_line, " = {"@) {
        Some(pos) => trim(first_line.take(pos)),
        None => trim(first_line),
    }
}

/// What the text of a service report says. A report without lines, or
/// whose first line gives no name, says nothing.
pub open spec fn service_detail(output: Seq<char>) -> Option<DetailView> {
    let ls = lines(output);
    if ls.len() == 0 || report_name(ls[0]).len() == 0 {
        None
    } else {
        Some(
            (
                match keyed_value(ls, "pid ="@) {
                    Some(v) => parse_u32(v),
                    None => None,
                },
                keyed_value(ls, "last exit code ="@),
                report_name(ls[0]),
                keyed_value(ls, "path ="@),
            ),
        )
    }
}

/// What a service report says of its service. A run that failed says
/// nothing.
pub open spec fn service_facts(result: LaunchctlResult) -> Option<DetailView> {
    if result.succeeded() {
        service_detail(result.output@)
    } else {
        None
    }
}

/// The facts of lines that follow one another are the facts of the first
/// lines, followed by the facts of the others.
pub proof fn lemma_line_facts_concat(first: Seq<Seq<char>>, second: Seq<Seq<char>>)
    ensures
        line_facts(first + second) == line_facts(first) + line_facts(second),
    decreases second.len(),
{
    if second.len() > 0 {
        assert((first + second).drop_last() =~= first + second.drop_last());
        lemma_line_facts_concat(first, second.drop_last());
        match line_fact(second.last()) {
            Some(fact) => {
                assert((line_facts(first) + line_facts(second.drop_last())).push(fact)
                    =~= line_facts(first) + line_facts(second.drop_last()).push(fact));
            },
            None => {},
        }
    }
}

/// A line of fewer than three words is passed over, and the lines before
/// and after it are read as if it were not there.
pub proof fn lemma_short_line_is_skipped(
    before: Seq<Seq<char>>,
    line: Seq<char>,
    after: Seq<Seq<char>>,
)
    requires
        tokens(line).len() < 3,
    ensures
        line_facts(before + seq![line] + after) == line_facts(before) + line_facts(after),
{
    lemma_line_facts_concat(before + seq![line], after);
    assert((before + seq![line]).drop_last() =~= before);
}

/// A line of three words or more gives its fact, between the facts of
/// the lines before it and those of the lines after it.
pub proof fn lemma_full_line_is_read(before: Seq<Seq<char>>, line: Seq<char>, after: Seq<Seq<char>>)
    requires
        tokens(line).len() >= 3,
    ensures
        line_fact(line) is Some,
        line_facts(before + seq![line] + after) == line_facts(before).push(
            line_fact(line).unwrap(),
        ) + line_facts(after),
{
    lemma_line_facts_concat(before + seq![line], after);
    assert((before + seq![line]).drop_last() =~= before);
}

fn section_of(output: &str) -> (r: Option<String>)
    ensures
        r.deep_view() == services_section(output@),
{
    let v = chars_of(output);
    let marker = chars_of("services = {");
    let brace = chars_of("}");
    match find_chars(&v, &marker, 0) {
        None => None,
        Some(pos) => {
            proof {
                crate::text::lemma_find_from(v@, marker@, 0);
            }
            let rest = substring(output, pos + marker.len(), v.len());
            let rv = chars_of(rest.as_str());
            match find_chars(&rv, &brace, 0) {
                Some(close) => {
                    proof {
                        crate::text::lemma_find_from(rv@, brace@, 0);
                    }
                    Some(substring(rest.as_str(), 0, close))
                },
                None => Some(rest),
            }
        },
    }
}

fn fact_of(line: &str) -> (r: Option<ServiceFact>)
    ensures
        r.deep_view() == line_fact(line@),
{
    let words = split_tokens(line);
    if words.len() < 3 {
        None
    } else {
        let pid = parse_number(words[0].as_str());
        let exit_code = Some(words[1].clone());
        let name = join_from(&words, 2, " ");
        Some((pid, exit_code, name))
    }
}

fn lines_of_section(output: &str) -> (r: Vec<String>)
    ensures
        r.deep_view() == section_lines(output@),
{
    match section_of(output) {
        Some(section) => split_lines(section.as_str()),
        None => {
            let r: Vec<String> = Vec::new();
            r
        },
    }
}

fn value_of(lines: &Vec<String>, key: &str) -> (r: Option<String>)
    ensures
        r.deep_view() == keyed_value(lines.deep_view(), key@),
{
    let k = chars_of(key);
    let ghost ls = lines.deep_view();
    let mut i: usize = 0;
    assert(ls.skip(0) =~= ls);
    while i < lines.len()
        invariant
            i <= lines.len(),
            k@ == key@,
            ls == lines.deep_view(),
            keyed_value(ls, key@) == keyed_value(ls.skip(i as int), key@),
        decreases lines.len() - i,
    {
        let t = trim_str(lines[i].as_str());
        let tv = chars_of(t.as_str());
        if k.len() <= tv.len() && occurs_at_exec(&tv, &k, 0) {
            let rest = substring(t.as_str(), k.len(), tv.len());
            return Some(trim_str(rest.as_str()));
        }
        assert(ls.skip(i as int).skip(1) =~= ls.skip(i + 1));
        i += 1;
    }
    None
}

fn name_of(first_line: &str) -> (r: String)
    ensures
        r@ == report_name(first_line@),
{
    let v = chars_of(first_line);
    let mark = chars_of(" = {");
    match find_chars(&v, &mark, 0) {
        Some(pos) => {
            proof {
                crate::text::lemma_find_from(v@, mark@, 0);
            }
            let head = substring(first_line, 0, pos);
            trim_str(head.as_str())
        },
        None => trim_str(first_line),
    }
}

/// The reader of the service manager's reports.
pub struct Parser;

impl Parser {
    /// Reads the report on a domain: one fact for each line of its services
    /// section that has at least three words.
    pub fn parse_print_domain(result: &LaunchctlResult) -> (services: Vec<ServiceFact>)
        ensures
            services.deep_view() == domain_facts(*result),
    {
        let mut services: Vec<ServiceFact> = Vec::new();
        if !result.success() {
            return services;
        }
        let lines = lines_of_section(result.output.as_str());
        let ghost ls = lines.deep_view();
        let mut i: usize = 0;
        while i < lines.len()
            invariant
                i <= lines.len(),
                ls == lines.deep_view(),
                services.deep_view() == line_facts(ls.take(i as int)),
            decreases lines.len() - i,
        {
            proof {
                assert(ls.take(i + 1).drop_last() =~= ls.take(i as int));
            }
            match fact_of(lines[i].as_str()) {
                Some(fact) => {
                    services.push(fact);
                },
                None => {},
            }
            i += 1;
        }
        assert(ls.take(i as int) =~= ls);
        services
    }

    /// The lines of a domain report's services section that
    /// `parse_print_domain` passes over because they hold too few words.
    /// Empty lines are not among them.
    pub fn skipped_lines(result: &LaunchctlResult) -> (skipped: Vec<String>)
        ensures
            skipped.deep_view() == domain_skipped(*result),
    {
        let mut skipped: Vec<String> = Vec::new();
        if !result.success() {
            return skipped;
        }
        let lines = lines_of_section(result.output.as_str());
        let ghost ls = lines.deep_view();
        let mut i: usize = 0;
        while i < lines.len()
            invariant
                i <= lines.len(),
                ls == lines.deep_view(),
                skipped.deep_view() == short_lines(ls.take(i as int)),
            decreases lines.len() - i,
        {
            proof {
                assert(ls.take(i + 1).drop_last() =~= ls.take(i as int));
            }
            let words = split_tokens(lines[i].as_str());
            if 0 < words.len() && words.len() < 3 {
                let line = lines[i].clone();
                skipped.push(line);
            }
            i += 1;
        }
        assert(ls.take(i as int) =~= ls);
        skipped
    }

    /// Reads the report on one service.
    pub fn parse_print_service(result: &LaunchctlResult) -> (detail: Option<ServiceDetail>)
        ensures
            detail.deep_view() == service_facts(*result),
    {
        if !result.success() {
            return None;
        }
        let lines = split_lines(result.output.as_str());
        if lines.len() == 0 {
            return None;
        }
        let name = name_of(lines[0].as_str());
        if chars_of(name.as_str()).len() == 0 {
            return None;
        }
        let pid = match value_of(&lines, "pid =") {
            Some(v) => parse_number(v.as_str()),
            None => None,
        };
        let last_exit_code = value_of(&lines, "last exit code =");
        let source_path = value_of(&lines, "path =");
        Some((pid, last_exit_code, name, source_path))
    }
}

} // verus!
