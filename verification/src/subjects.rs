//! Subject naming.  A client identifier determines three derived subjects —
//! its command subject, its response subject, and the shared registration
//! subject — and the lemmas here show that they never collide across
//! clients sharing a prefix.

use vstd::prelude::*;

verus! {

pub open spec fn register_subject_spec(prefix: Seq<char>) -> Seq<char> {
    prefix + seq!['.', 'r', 'e', 'g', 'i', 's', 't', 'e', 'r']
}

pub open spec fn heartbeat_subject_spec(prefix: Seq<char>) -> Seq<char> {
    prefix + seq!['.', 'h', 'e', 'a', 'r', 't', 'b', 'e', 'a', 't']
}

pub open spec fn command_subject_spec(prefix: Seq<char>, client_id: Seq<char>) -> Seq<char> {
    prefix + seq!['.', 'c', 'o', 'm', 'm', 'a', 'n', 'd', '.'] + client_id
}

pub open spec fn response_subject_spec(prefix: Seq<char>, client_id: Seq<char>) -> Seq<char> {
    prefix + seq!['.', 'r', 'e', 's', 'p', 'o', 'n', 's', 'e', '.'] + client_id
}

/// The subject agents register on: `<prefix>.register`.
pub fn register_subject(prefix: &str) -> (r: String)
    ensures
        r@ == register_subject_spec(prefix@),
{
    let mut r = String::new();
    r.append(prefix);
    r.append(".register");
    proof {
        reveal_strlit(".register");
        assert(r@ =~= register_subject_spec(prefix@));
    }
    r
}

/// The subject agents signal liveness on: `<prefix>.heartbeat`.
pub fn heartbeat_subject(prefix: &str) -> (r: String)
    ensures
        r@ == heartbeat_subject_spec(prefix@),
{
    let mut r = String::new();
    r.append(prefix);
    r.append(".heartbeat");
    proof {
        reveal_strlit(".heartbeat");
        assert(r@ =~= heartbeat_subject_spec(prefix@));
    }
    r
}

/// The subject one client receives commands on:
/// `<prefix>.command.<client_id>`.
pub fn command_subject(prefix: &str, client_id: &str) -> (r: String)
    ensures
        r@ == command_subject_spec(prefix@, client_id@),
{
    let mut r = String::new();
    r.append(prefix);
    r.append(".command.");
    r.append(client_id);
    proof {
        reveal_strlit(".command.");
        assert(r@ =~= command_subject_spec(prefix@, client_id@));
    }
    r
}

/// The subject one client publishes results on:
/// `<prefix>.response.<client_id>`.
pub fn response_subject(prefix: &str, client_id: &str) -> (r: String)
    ensures
        r@ == response_subject_spec(prefix@, client_id@),
{
    let mut r = String::new();
    r.append(prefix);
    r.append(".response.");
    r.append(client_id);
    proof {
        reveal_strlit(".response.");
        assert(r@ =~= response_subject_spec(prefix@, client_id@));
    }
    r
}

/// Distinct clients own distinct subjects: under one prefix, two different
/// identifiers never share a command subject nor a response subject.
pub proof fn lemma_subjects_distinct_clients(prefix: Seq<char>, a: Seq<char>, b: Seq<char>)
    requires
        a != b,
    ensures
        command_subject_spec(prefix, a) != command_subject_spec(prefix, b),
        response_subject_spec(prefix, a) != response_subject_spec(prefix, b),
{
    let n = prefix.len() as int;
    if command_subject_spec(prefix, a) == command_subject_spec(prefix, b) {
        assert(command_subject_spec(prefix, a).len() == prefix.len() + 9 + a.len());
        assert(command_subject_spec(prefix, b).len() == prefix.len() + 9 + b.len());
        assert(a.len() == b.len());
        assert(forall|k: int|
            0 <= k < a.len() ==> a[k] == command_subject_spec(prefix, a)[n + 9 + k]);
        assert(forall|k: int|
            0 <= k < b.len() ==> b[k] == command_subject_spec(prefix, b)[n + 9 + k]);
        assert(a =~= b);
    }
    if response_subject_spec(prefix, a) == response_subject_spec(prefix, b) {
        assert(response_subject_spec(prefix, a).len() == prefix.len() + 10 + a.len());
        assert(response_subject_spec(prefix, b).len() == prefix.len() + 10 + b.len());
        assert(a.len() == b.len());
        assert(forall|k: int|
            0 <= k < a.len() ==> a[k] == response_subject_spec(prefix, a)[n + 10 + k]);
        assert(forall|k: int|
            0 <= k < b.len() ==> b[k] == response_subject_spec(prefix, b)[n + 10 + k]);
        assert(a =~= b);
    }
}

/// The three kinds of subject never collide with one another, whatever the
/// identifiers: command, response and registration subjects are disjoint
/// under one prefix.
pub proof fn lemma_subject_kinds_distinct(prefix: Seq<char>, a: Seq<char>, b: Seq<char>)
    ensures
        command_subject_spec(prefix, a) != response_subject_spec(prefix, b),
        command_subject_spec(prefix, a) != register_subject_spec(prefix),
        response_subject_spec(prefix, a) != register_subject_spec(prefix),
{
    let n = prefix.len() as int;
    assert(command_subject_spec(prefix, a)[n + 1] == 'c');
    assert(response_subject_spec(prefix, b)[n + 1] == 'r');
    assert(register_subject_spec(prefix)[n + 1] == 'r');
    assert(response_subject_spec(prefix, a)[n + 3] == 's');
    assert(register_subject_spec(prefix)[n + 3] == 'g');
}

} // verus!
