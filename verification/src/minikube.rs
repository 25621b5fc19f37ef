//! Asking the local cluster for its addresses.

use vstd::prelude::*;
use vstd::string::*;
use crate::process::Invocation;
use crate::process::InvocationSpec;
use crate::process::call;
use crate::process::no_texts;
use crate::process::plain_call;
use crate::process::push_text;
use crate::process::texts;
use crate::text::is_whitespace;
use crate::text::lemma_trim_removes_padding;
use crate::text::trim;
use crate::text::whitespace_end;
use crate::text::trimmed;

verus! {

/// The call that asks for the address of the host machine as the cluster
/// sees it.
pub open spec fn host_ip_call() -> InvocationSpec {
    plain_call(
        "sh"@,
        seq!["-c"@, "minikube ssh cat /etc/hosts | grep host.minikube.internal | cut -f1"@],
    )
}

/// The call that asks for the address of the cluster.
pub open spec fn minikube_ip_call() -> InvocationSpec {
    plain_call("minikube"@, seq!["ip"@])
}

/// The address that a finished query reports: what it printed, without the
/// white space around it, where the query succeeded and printed more than
/// white space.
pub open spec fn reported_address(succeeded: bool, output: Seq<char>) -> Option<Seq<char>> {
    if succeeded && trimmed(output).len() > 0 {
        Some(trimmed(output))
    } else {
        None
    }
}

/// The call that asks for the address of the host machine as the cluster
/// sees it.
pub fn host_ip_query() -> (r: Invocation)
    ensures
        r@ == host_ip_call(),
{
    let mut args = no_texts();
    push_text(&mut args, "-c");
    push_text(&mut args, "minikube ssh cat /etc/hosts | grep host.minikube.internal | cut -f1");
    proof {
        assert(texts(args@) =~= seq![
            "-c"@,
            "minikube ssh cat /etc/hosts | grep host.minikube.internal | cut -f1"@,
        ]);
    }
    call("sh", args)
}

/// The call that asks for the address of the cluster.
pub fn minikube_ip_query() -> (r: Invocation)
    ensures
        r@ == minikube_ip_call(),
{
    let mut args = no_texts();
    push_text(&mut args, "ip");
    call("minikube", args)
}

fn address_from(succeeded: bool, output: &str) -> (r: Option<String>)
    ensures
        match r {
            Some(address) => reported_address(succeeded, output@) == Some(address@),
            None => reported_address(succeeded, output@) is None,
        },
{
    if !succeeded {
        return None;
    }
    let address = trim(output);
    if address.as_str().unicode_len() == 0 {
        None
    } else {
        Some(address)
    }
}

/// The address of the host machine that a finished query reports, or `None`
/// where the query failed or printed nothing but white space.
pub fn get_host_ip(succeeded: bool, output: &str) -> (r: Option<String>)
    ensures
        match r {
            Some(address) => reported_address(succeeded, output@) == Some(address@),
            None => reported_address(succeeded, output@) is None,
        },
{
    address_from(succeeded, output)
}

/// The address of the cluster that a finished query reports, or `None`
/// where the query failed or printed nothing but white space.
pub fn get_minikube_ip(succeeded: bool, output: &str) -> (r: Option<String>)
    ensures
        match r {
            Some(address) => reported_address(succeeded, output@) == Some(address@),
            None => reported_address(succeeded, output@) is None,
        },
{
    address_from(succeeded, output)
}

/// A query that succeeded and printed an address on a line of its own
/// reports that address: the line feed after it is taken away, and nothing
/// of the address is, where the address begins and ends with characters
/// that are no white space.
pub proof fn lemma_address_on_a_line(address: Seq<char>)
    requires
        address.len() > 0,
        !is_whitespace(address[0]),
        !is_whitespace(address.last()),
    ensures
        reported_address(true, address + seq!['\n']) == Some(address),
        reported_address(true, address) == Some(address),
{
    assert(is_whitespace('\n'));
    lemma_trim_removes_padding(Seq::empty(), address, seq!['\n']);
    assert(Seq::<char>::empty() + address + seq!['\n'] =~= address + seq!['\n']);
    lemma_trim_removes_padding(Seq::empty(), address, Seq::empty());
    assert(Seq::<char>::empty() + address + Seq::<char>::empty() =~= address);
}

/// A query that printed nothing but white space reports no address.
pub proof fn lemma_white_space_is_no_address(output: Seq<char>)
    requires
        forall|i: int| 0 <= i < output.len() ==> is_whitespace(#[trigger] output[i]),
    ensures
        reported_address(true, output) is None,
{
    lemma_all_whitespace_ends(output, 0);
}

/// In a text of white space alone, the white space ends with the text.
proof fn lemma_all_whitespace_ends(s: Seq<char>, from: int)
    requires
        0 <= from <= s.len(),
        forall|i: int| 0 <= i < s.len() ==> is_whitespace(#[trigger] s[i]),
    ensures
        whitespace_end(s, from) == s.len(),
    decreases s.len() - from,
{
    if from < s.len() {
        assert(is_whitespace(s[from]));
        lemma_all_whitespace_ends(s, from + 1);
    }
}

} // verus!
