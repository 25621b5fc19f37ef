//! The record in the host-name resolution file that points the
//! application's hostname at the cluster.
//!
//! The file is handled as its lines: the caller reads them and writes back
//! what `patch_etc_hosts` returns.

use vstd::prelude::*;
use vstd::string::*;
use crate::models::Definition;
use crate::models::GlobalConfig;
use crate::process::no_texts;
use crate::process::push_text;
use crate::process::texts;
use crate::text::concat3;
use crate::text::contains;
use crate::text::is_substring;
use crate::text::same_text;

verus! {

/// What the resolution file says about the application's hostname.
#[derive(Clone, Copy, Debug, PartialEq, Eq, Structural)]
pub enum HostsStatus {
    /// The first line that mentions the hostname gives the expected address.
    Consistent,
    /// No line mentions the hostname.
    Missing,
    /// The first line that mentions the hostname gives another address.
    Stale,
}

/// A character that separates the fields of a line.
pub open spec fn is_blank(c: char) -> bool {
    c == ' ' || c == '\t'
}

/// The first position at or after `from` that holds no blank.
pub open spec fn blanks_end(line: Seq<char>, from: int) -> int
    decreases line.len() - from,
{
    if 0 <= from < line.len() && is_blank(line[from]) {
        blanks_end(line, from + 1)
    } else {
        from
    }
}

/// The first position at or after `from` that holds a blank, or the end of
/// the line.
pub open spec fn token_end(line: Seq<char>, from: int) -> int
    decreases line.len() - from,
{
    if 0 <= from < line.len() && !is_blank(line[from]) {
        token_end(line, from + 1)
    } else {
        from
    }
}

/// The first field of a line: what stands between the blanks at its start
/// and the next blank.
pub open spec fn leading_token(line: Seq<char>) -> Seq<char> {
    line.subrange(blanks_end(line, 0), token_end(line, blanks_end(line, 0)))
}

/// The position of the first line, at or after `from`, that mentions the
/// hostname; the number of lines where there is none.
pub open spec fn first_mention(lines: Seq<Seq<char>>, hostname: Seq<char>, from: int) -> int
    decreases lines.len() - from,
{
    if 0 <= from < lines.len() && !is_substring(hostname, lines[from]) {
        first_mention(lines, hostname, from + 1)
    } else {
        from
    }
}

/// The number of lines that mention the hostname.
pub open spec fn mention_count(lines: Seq<Seq<char>>, hostname: Seq<char>) -> nat
    decreases lines.len(),
{
    if lines.len() == 0 {
        0
    } else {
        mention_count(lines.drop_last(), hostname) + if is_substring(hostname, lines.last()) {
            1nat
        } else {
            0nat
        }
    }
}

/// What the lines say about the hostname, judged by the first line that
/// mentions it.
pub open spec fn hosts_status(
    lines: Seq<Seq<char>>,
    hostname: Seq<char>,
    address: Seq<char>,
) -> HostsStatus {
    let at = first_mention(lines, hostname, 0);
    if at >= lines.len() {
        HostsStatus::Missing
    } else if leading_token(lines[at]) == address {
        HostsStatus::Consistent
    } else {
        HostsStatus::Stale
    }
}

/// The record that maps the hostname to the address.
pub open spec fn hosts_entry(address: Seq<char>, hostname: Seq<char>) -> Seq<char> {
    address + " "@ + hostname + " # minitel application"@
}

/// The lines that do not mention the hostname, in their order.
pub open spec fn kept_lines(lines: Seq<Seq<char>>, hostname: Seq<char>) -> Seq<Seq<char>>
    decreases lines.len(),
{
    if lines.len() == 0 {
        Seq::empty()
    } else if is_substring(hostname, lines.last()) {
        kept_lines(lines.drop_last(), hostname)
    } else {
        kept_lines(lines.drop_last(), hostname).push(lines.last())
    }
}

/// The lines after the record for the hostname was renewed: every line that
/// does not mention the hostname, then the one new record.
pub open spec fn patched_hosts(
    lines: Seq<Seq<char>>,
    hostname: Seq<char>,
    address: Seq<char>,
) -> Seq<Seq<char>> {
    kept_lines(lines, hostname).push(hosts_entry(address, hostname))
}

/// The text of a file with the given lines, each followed by a line feed.
pub open spec fn file_text(lines: Seq<Seq<char>>) -> Seq<char>
    decreases lines.len(),
{
    if lines.len() == 0 {
        Seq::empty()
    } else {
        file_text(lines.drop_last()) + lines.last() + "\n"@
    }
}

/// Whether the first field of the line is the given text.
pub fn leading_token_is(line: &str, expected: &str) -> (r: bool)
    ensures
        r == (leading_token(line@) == expected@),
{
    let len = line.unicode_len();
    let mut start: usize = 0;
    while start < len && is_blank_char(line.get_char(start))
        invariant
            0 <= start <= len,
            len == line@.len(),
            blanks_end(line@, 0) == blanks_end(line@, start as int),
        decreases len - start,
    {
        start += 1;
    }
    let mut end: usize = start;
    while end < len && !is_blank_char(line.get_char(end))
        invariant
            start <= end <= len,
            len == line@.len(),
            token_end(line@, start as int) == token_end(line@, end as int),
        decreases len - end,
    {
        end += 1;
    }
    let token = line.substring_char(start, end);
    same_text(token, expected)
}

/// Whether the character separates the fields of a line.
pub fn is_blank_char(c: char) -> (r: bool)
    ensures
        r == is_blank(c),
{
    c == ' ' || c == '\t'
}

/// Compares the record for the application's hostname with the address of
/// the cluster.
///
/// The first line that mentions the hostname decides: without one the
/// record is missing, and with one it is consistent exactly when the first
/// field of that line is the cluster's address.
pub fn check_etc_hosts(lines: &Vec<String>, config: &GlobalConfig, def: &Definition) -> (r:
    HostsStatus)
    ensures
        r == hosts_status(texts(lines@), def.hostname@, config.minikube_ip@),
{
    let ghost model = texts(lines@);
    let mut i: usize = 0;
    while i < lines.len()
        invariant
            0 <= i <= lines.len(),
            model == texts(lines@),
            first_mention(model, def.hostname@, 0) == first_mention(model, def.hostname@, i as int),
        decreases lines.len() - i,
    {
        if contains(lines[i].as_str(), def.hostname.as_str()) {
            assert(model[i as int] == lines@[i as int]@);
            if leading_token_is(lines[i].as_str(), config.minikube_ip) {
                return HostsStatus::Consistent;
            } else {
                return HostsStatus::Stale;
            }
        }
        assert(model[i as int] == lines@[i as int]@);
        i += 1;
    }
    HostsStatus::Missing
}

/// Renews the record for the application's hostname: the lines that do not
/// mention the hostname are kept as they are and in their order, and one
/// record that maps the hostname to the cluster's address follows them.
pub fn patch_etc_hosts(lines: &Vec<String>, config: &GlobalConfig, def: &Definition) -> (r: Vec<
    String,
>)
    ensures
        texts(r@) == patched_hosts(texts(lines@), def.hostname@, config.minikube_ip@),
{
    let ghost model = texts(lines@);
    let mut acc = no_texts();
    let mut i: usize = 0;
    proof {
        assert(model.take(0) =~= Seq::<Seq<char>>::empty());
    }
    while i < lines.len()
        invariant
            0 <= i <= lines.len(),
            model == texts(lines@),
            texts(acc@) == kept_lines(model.take(i as int), def.hostname@),
        decreases lines.len() - i,
    {
        proof {
            assert(model.take(i + 1).drop_last() =~= model.take(i as int));
            assert(model.take(i + 1).last() == lines@[i as int]@);
        }
        if !contains(lines[i].as_str(), def.hostname.as_str()) {
            push_text(&mut acc, lines[i].as_str());
        }
        i += 1;
    }
    proof {
        assert(model.take(i as int) =~= model);
    }
    let mut entry = concat3(config.minikube_ip, " ", def.hostname.as_str());
    entry.append(" # minitel application");
    push_text(&mut acc, entry.as_str());
    acc
}

/// The text of the file that holds the given lines, each followed by a line
/// feed.
pub fn render_hosts(lines: &Vec<String>) -> (r: String)
    ensures
        r@ == file_text(texts(lines@)),
{
    let ghost model = texts(lines@);
    let mut out = String::new();
    let mut i: usize = 0;
    proof {
        assert(model.take(0) =~= Seq::<Seq<char>>::empty());
    }
    while i < lines.len()
        invariant
            0 <= i <= lines.len(),
            model == texts(lines@),
            out@ == file_text(model.take(i as int)),
        decreases lines.len() - i,
    {
        proof {
            assert(model.take(i + 1).drop_last() =~= model.take(i as int));
            assert(model.take(i + 1).last() == lines@[i as int]@);
        }
        out.append(lines[i].as_str());
        out.append("\n");
        i += 1;
    }
    proof {
        assert(model.take(i as int) =~= model);
    }
    out
}

/// The first mention lies at or after the start of the search, no line
/// before it mentions the hostname, and the line at it does.
pub proof fn lemma_first_mention(lines: Seq<Seq<char>>, hostname: Seq<char>, from: int)
    requires
        0 <= from <= lines.len(),
    ensures
        from <= first_mention(lines, hostname, from) <= lines.len(),
        forall|j: int|
            from <= j < first_mention(lines, hostname, from) ==> !is_substring(
                hostname,
                #[trigger] lines[j],
            ),
        first_mention(lines, hostname, from) < lines.len() ==> is_substring(
            hostname,
            lines[first_mention(lines, hostname, from)],
        ),
    decreases lines.len() - from,
{
    if from < lines.len() && !is_substring(hostname, lines[from]) {
        lemma_first_mention(lines, hostname, from + 1);
    }
}

/// No line is counted exactly when no line mentions the hostname.
pub proof fn lemma_no_mention(lines: Seq<Seq<char>>, hostname: Seq<char>)
    ensures
        mention_count(lines, hostname) == 0 <==> forall|j: int|
            0 <= j < lines.len() ==> !is_substring(hostname, #[trigger] lines[j]),
    decreases lines.len(),
{
    if lines.len() > 0 {
        let front = lines.drop_last();
        lemma_no_mention(front, hostname);
        if mention_count(lines, hostname) == 0 {
            assert forall|j: int| 0 <= j < lines.len() implies !is_substring(
                hostname,
                #[trigger] lines[j],
            ) by {
                if j < front.len() {
                    assert(front[j] == lines[j]);
                }
            }
        } else if !is_substring(hostname, lines.last()) {
            let j = choose|j: int| 0 <= j < front.len() && is_substring(hostname, #[trigger] front[j]);
            assert(front[j] == lines[j]);
        }
    }
}

/// Where at most one line is counted, no two lines mention the hostname.
pub proof fn lemma_single_mention(lines: Seq<Seq<char>>, hostname: Seq<char>)
    requires
        mention_count(lines, hostname) <= 1,
    ensures
        forall|i: int, j: int|
            0 <= i < lines.len() && 0 <= j < lines.len() && is_substring(
                hostname,
                #[trigger] lines[i],
            ) && is_substring(hostname, #[trigger] lines[j]) ==> i == j,
    decreases lines.len(),
{
    if lines.len() > 0 {
        let front = lines.drop_last();
        lemma_no_mention(front, hostname);
        if is_substring(hostname, lines.last()) {
            assert forall|i: int| 0 <= i < front.len() implies !is_substring(
                hostname,
                #[trigger] lines[i],
            ) by {
                assert(front[i] == lines[i]);
            }
        } else {
            lemma_single_mention(front, hostname);
            assert forall|i: int, j: int|
                0 <= i < lines.len() && 0 <= j < lines.len() && is_substring(
                    hostname,
                    #[trigger] lines[i],
                ) && is_substring(hostname, #[trigger] lines[j]) implies i == j by {
                assert(front[i] == lines[i]);
                assert(front[j] == lines[j]);
            }
        }
    }
}

/// The check reports a missing record if and only if no line mentions the
/// hostname; and it is consistent where exactly one line mentions the
/// hostname and the first field of that line is the expected address.
pub proof fn lemma_check_of_any_file(lines: Seq<Seq<char>>, hostname: Seq<char>, address: Seq<char>)
    ensures
        hosts_status(lines, hostname, address) == HostsStatus::Missing <==> mention_count(
            lines,
            hostname,
        ) == 0,
        mention_count(lines, hostname) == 1 && (exists|i: int|
            0 <= i < lines.len() && is_substring(hostname, #[trigger] lines[i]) && leading_token(
                lines[i],
            ) == address) ==> hosts_status(lines, hostname, address) == HostsStatus::Consistent,
{
    lemma_first_mention(lines, hostname, 0);
    lemma_no_mention(lines, hostname);
    if mention_count(lines, hostname) == 1 {
        lemma_single_mention(lines, hostname);
    }
}

/// Where at most one line mentions the hostname, the check is consistent if
/// and only if exactly one line mentions it and the first field of that line
/// is the expected address; it reports a missing record if and only if no
/// line mentions the hostname, and a stale one if and only if the one line
/// that mentions it has another first field.
pub proof fn lemma_check_by_mentions(
    lines: Seq<Seq<char>>,
    hostname: Seq<char>,
    address: Seq<char>,
)
    requires
        mention_count(lines, hostname) <= 1,
    ensures
        hosts_status(lines, hostname, address) == HostsStatus::Consistent <==> mention_count(
            lines,
            hostname,
        ) == 1 && exists|i: int|
            0 <= i < lines.len() && is_substring(hostname, #[trigger] lines[i]) && leading_token(
                lines[i],
            ) == address,
        hosts_status(lines, hostname, address) == HostsStatus::Missing <==> mention_count(
            lines,
            hostname,
        ) == 0,
        hosts_status(lines, hostname, address) == HostsStatus::Stale <==> mention_count(
            lines,
            hostname,
        ) == 1 && exists|i: int|
            0 <= i < lines.len() && is_substring(hostname, #[trigger] lines[i]) && leading_token(
                lines[i],
            ) != address,
{
    let at = first_mention(lines, hostname, 0);
    lemma_first_mention(lines, hostname, 0);
    lemma_no_mention(lines, hostname);
    lemma_single_mention(lines, hostname);
    if at < lines.len() {
        assert(is_substring(hostname, lines[at]));
        assert(mention_count(lines, hostname) == 1);
    }
}

/// The record for a hostname mentions the hostname.
pub proof fn lemma_entry_mentions(address: Seq<char>, hostname: Seq<char>)
    ensures
        is_substring(hostname, hosts_entry(address, hostname)),
{
    let entry = hosts_entry(address, hostname);
    let at: int = address.len() as int + 1;
    reveal_strlit(" ");
    assert(entry.subrange(at, at + hostname.len()) =~= hostname);
}

/// None of the lines that are kept mentions the hostname.
pub proof fn lemma_kept_lines_are_clean(lines: Seq<Seq<char>>, hostname: Seq<char>)
    ensures
        forall|j: int|
            0 <= j < kept_lines(lines, hostname).len() ==> !is_substring(
                hostname,
                #[trigger] kept_lines(lines, hostname)[j],
            ),
    decreases lines.len(),
{
    if lines.len() > 0 {
        let front = kept_lines(lines.drop_last(), hostname);
        let kept = kept_lines(lines, hostname);
        lemma_kept_lines_are_clean(lines.drop_last(), hostname);
        assert forall|j: int| 0 <= j < kept.len() implies !is_substring(
            hostname,
            #[trigger] kept[j],
        ) by {
            if j < front.len() {
                assert(kept[j] == front[j]);
            }
        }
    }
}

/// Lines of which none mentions the hostname are all kept.
pub proof fn lemma_clean_lines_are_kept(lines: Seq<Seq<char>>, hostname: Seq<char>)
    requires
        forall|j: int| 0 <= j < lines.len() ==> !is_substring(hostname, #[trigger] lines[j]),
    ensures
        kept_lines(lines, hostname) == lines,
    decreases lines.len(),
{
    if lines.len() > 0 {
        let front = lines.drop_last();
        assert forall|j: int| 0 <= j < front.len() implies !is_substring(
            hostname,
            #[trigger] front[j],
        ) by {
            assert(front[j] == lines[j]);
        }
        lemma_clean_lines_are_kept(front, hostname);
        assert(front.push(lines.last()) =~= lines);
    } else {
        assert(lines =~= Seq::<Seq<char>>::empty());
    }
}

/// Renewing the record is idempotent: a second patch for the same hostname
/// and address gives the lines that the first one gave, and among them
/// exactly one line mentions the hostname.
pub proof fn lemma_patch_idempotent(lines: Seq<Seq<char>>, hostname: Seq<char>, address: Seq<char>)
    ensures
        patched_hosts(patched_hosts(lines, hostname, address), hostname, address) == patched_hosts(
            lines,
            hostname,
            address,
        ),
        mention_count(patched_hosts(lines, hostname, address), hostname) == 1,
{
    let kept = kept_lines(lines, hostname);
    let entry = hosts_entry(address, hostname);
    let once = patched_hosts(lines, hostname, address);
    lemma_entry_mentions(address, hostname);
    lemma_kept_lines_are_clean(lines, hostname);
    lemma_clean_lines_are_kept(kept, hostname);
    lemma_no_mention(kept, hostname);
    assert(once.drop_last() =~= kept);
    assert(once.last() == entry);
    assert(kept_lines(once, hostname) == kept);
}

/// A line that begins with a text without blanks, followed by a blank, has
/// that text as its first field.
pub proof fn lemma_leading_token_of_record(address: Seq<char>, rest: Seq<char>)
    requires
        address.len() > 0,
        forall|i: int| 0 <= i < address.len() ==> !is_blank(#[trigger] address[i]),
        rest.len() > 0,
        is_blank(rest[0]),
    ensures
        leading_token(address + rest) == address,
{
    let line = address + rest;
    assert(line[0] == address[0]);
    assert(blanks_end(line, 0) == 0);
    lemma_token_ends_after(line, address.len() as int, 0);
    assert(line.subrange(0, address.len() as int) =~= address);
}

/// From a position inside a run of characters that are no blanks, the field
/// ends where the run ends.
proof fn lemma_token_ends_after(line: Seq<char>, end: int, from: int)
    requires
        0 <= from <= end < line.len(),
        forall|i: int| from <= i < end ==> !is_blank(#[trigger] line[i]),
        is_blank(line[end]),
    ensures
        token_end(line, from) == end,
    decreases end - from,
{
    if from < end {
        assert(!is_blank(line[from]));
        lemma_token_ends_after(line, end, from + 1);
    }
}

/// After the record was renewed the check is consistent, where the address
/// is a text without blanks: the one line that mentions the hostname is the
/// new record, and its first field is the address.
pub proof fn lemma_patched_is_consistent(
    lines: Seq<Seq<char>>,
    hostname: Seq<char>,
    address: Seq<char>,
)
    requires
        address.len() > 0,
        forall|i: int| 0 <= i < address.len() ==> !is_blank(#[trigger] address[i]),
    ensures
        hosts_status(patched_hosts(lines, hostname, address), hostname, address)
            == HostsStatus::Consistent,
{
    let kept = kept_lines(lines, hostname);
    let entry = hosts_entry(address, hostname);
    let patched = patched_hosts(lines, hostname, address);
    lemma_entry_mentions(address, hostname);
    lemma_kept_lines_are_clean(lines, hostname);
    lemma_first_mention(patched, hostname, 0);
    let at = first_mention(patched, hostname, 0);
    assert(at == kept.len()) by {
        if at < kept.len() {
            assert(patched[at] == kept[at]);
        }
        if at > kept.len() {
            assert(patched[kept.len() as int] == entry);
        }
    }
    let rest = " "@ + hostname + " # minitel application"@;
    assert(entry =~= address + rest);
    reveal_strlit(" ");
    assert(rest[0] == ' ');
    lemma_leading_token_of_record(address, rest);
}

} // verus!
