//! Names of the keys under which the coordination store holds each record.

use vstd::prelude::*;
use vstd::string::StringExecFns;
use crate::text::{
    escaped, is_escaped, is_prefix, lemma_escaped_chars, lemma_escaped_injective,
    lemma_escaped_separators, lemma_int_text_injective, lemma_int_text_plain,
    lemma_nat_text_digits, lemma_nat_text_injective, lemma_split, lemma_split_eq, lemma_strip,
    no_char, push_escaped,
};
use crate::types::{JobSubmission, ModuleInfo, ModuleId, SubmissionView};

verus! {

/// The decimal digit for `d` (below ten).
pub open spec fn digit_char(d: nat) -> char {
    if d == 0 { '0' }
    else if d == 1 { '1' }
    else if d == 2 { '2' }
    else if d == 3 { '3' }
    else if d == 4 { '4' }
    else if d == 5 { '5' }
    else if d == 6 { '6' }
    else if d == 7 { '7' }
    else if d == 8 { '8' }
    else { '9' }
}

/// The decimal text of a natural number, without leading zeros.
pub open spec fn nat_text(n: nat) -> Seq<char>
    decreases n,
{
    if n < 10 {
        seq![digit_char(n)]
    } else {
        nat_text(n / 10) + seq![digit_char(n % 10)]
    }
}

/// The decimal text of an integer, with a leading '-' when it is negative.
pub open spec fn int_text(i: int) -> Seq<char> {
    if i < 0 {
        seq!['-'] + nat_text((-i) as nat)
    } else {
        nat_text(i as nat)
    }
}

/// The display form of a module, `name:version`.
pub open spec fn module_text(m: ModuleId) -> Seq<char> {
    m.0 + seq![':'] + m.1
}

/// A general key of the system.
pub open spec fn general_key(name: Seq<char>) -> Seq<char> {
    "laps."@ + name
}

/// A key private to the backend.
pub open spec fn backend_key(name: Seq<char>) -> Seq<char> {
    "laps.backend."@ + name
}

/// A module as it stands in fingerprints: the escaped name and version, with
/// a `:` between them. A name free of `% : . * ? [ ] \\` reads as it is.
pub open spec fn module_tag(m: ModuleId) -> Seq<char> {
    escaped(m.0) + seq![':'] + escaped(m.1)
}

/// The canonical fingerprint of a submission: module first, so that every
/// fingerprint of a module starts with its tag and a `.`, then the map id and
/// the two points, `tag.map.sx,sy.tx,ty`.
pub open spec fn fingerprint(s: SubmissionView) -> Seq<char> {
    module_tag(s.3) + seq!['.'] + int_text(s.2 as int) + seq!['.'] + nat_text(s.0.x as nat)
        + seq![','] + nat_text(s.0.y as nat) + seq!['.'] + nat_text(s.1.x as nat) + seq![',']
        + nat_text(s.1.y as nat)
}

/// The cache key of a submission.
pub open spec fn cache_key(s: SubmissionView) -> Seq<char> {
    backend_key("cache."@ + fingerprint(s))
}

/// The prefix shared by every cache key of module `m`, and by no other key.
pub open spec fn module_cache_prefix(m: ModuleId) -> Seq<char> {
    backend_key("cache."@ + module_tag(m) + seq!['.'])
}

/// A text that a scan pattern matches literally: it holds none of the
/// pattern characters `* ? [ ] \\`.
pub open spec fn glob_literal(s: Seq<char>) -> bool {
    forall|i: int|
        0 <= i < s.len() ==> !(s[i] == '*' || s[i] == '?' || s[i] == '[' || s[i] == ']' || s[i]
            == '\\')
}

/// The key counting the workers that `m` should have.
pub open spec fn module_workers_key(m: ModuleId) -> Seq<char> {
    backend_key("module-workers."@ + module_text(m))
}

fn push_digit(s: &mut String, d: u64)
    requires
        d < 10,
    ensures
        final(s)@ == old(s)@ + seq![digit_char(d as nat)],
{
    let t: &str = if d == 0 {
        "0"
    } else if d == 1 {
        "1"
    } else if d == 2 {
        "2"
    } else if d == 3 {
        "3"
    } else if d == 4 {
        "4"
    } else if d == 5 {
        "5"
    } else if d == 6 {
        "6"
    } else if d == 7 {
        "7"
    } else if d == 8 {
        "8"
    } else {
        "9"
    };
    proof {
        reveal_strlit("0");
        reveal_strlit("1");
        reveal_strlit("2");
        reveal_strlit("3");
        reveal_strlit("4");
        reveal_strlit("5");
        reveal_strlit("6");
        reveal_strlit("7");
        reveal_strlit("8");
        reveal_strlit("9");
    }
    s.append(t);
    proof {
        assert(t@ =~= seq![digit_char(d as nat)]);
    }
}

/// Appends the decimal text of `n` to `s`.
pub fn push_nat(s: &mut String, n: u64)
    ensures
        final(s)@ == old(s)@ + nat_text(n as nat),
    decreases n,
{
    if n >= 10 {
        push_nat(s, n / 10);
        push_digit(s, n % 10);
        assert(final(s)@ =~= old(s)@ + nat_text(n as nat));
    } else {
        push_digit(s, n);
    }
}

/// Appends the decimal text of `i` to `s`.
pub fn push_int(s: &mut String, i: i64)
    requires
        i > i64::MIN,
    ensures
        final(s)@ == old(s)@ + int_text(i as int),
{
    if i < 0 {
        s.append("-");
        proof {
            reveal_strlit("-");
        }
        push_nat(s, (-i) as u64);
        assert(final(s)@ =~= old(s)@ + int_text(i as int));
    } else {
        push_nat(s, i as u64);
    }
}

/// Appends `name:version` to `s`.
pub fn push_module(s: &mut String, m: &ModuleInfo)
    ensures
        final(s)@ == old(s)@ + module_text(m@),
{
    s.append(m.name.as_str());
    s.append(":");
    proof {
        reveal_strlit(":");
    }
    s.append(m.version.as_str());
    assert(final(s)@ =~= old(s)@ + module_text(m@));
}

impl ModuleInfo {
    /// The display form of the module, `name:version`.
    pub fn to_string(&self) -> (r: String)
        ensures
            r@ == module_text(self@),
    {
        let mut s = String::new();
        push_module(&mut s, self);
        assert(s@ =~= module_text(self@));
        s
    }
}

/// Create a general key to be used in the system.
pub fn create_redis_key(name: &str) -> (r: String)
    ensures
        r@ == general_key(name@),
{
    let mut s = String::from_str("laps.");
    s.append(name);
    s
}

/// Create a key for something specific to the backend.
pub fn create_redis_backend_key(name: &str) -> (r: String)
    ensures
        r@ == backend_key(name@),
{
    let mut s = String::from_str("laps.backend.");
    s.append(name);
    s
}

/// The work queue of `module`.
pub fn get_module_work_key(module: &ModuleInfo) -> (r: String)
    ensures
        r@ == general_key("runner."@ + module_text(module@) + ".work"@),
{
    let mut s = String::from_str("runner.");
    push_module(&mut s, module);
    s.append(".work");
    let r = create_redis_key(s.as_str());
    assert(r@ =~= general_key("runner."@ + module_text(module@) + ".work"@));
    r
}

/// The list holding the log lines of `module`.
pub fn get_module_log_key(module: &ModuleInfo) -> (r: String)
    ensures
        r@ == backend_key("moduleLogs."@ + module_text(module@)),
{
    let mut s = String::from_str("moduleLogs.");
    push_module(&mut s, module);
    create_redis_backend_key(s.as_str())
}

/// The key mapping the client token `token` to its job id.
pub fn get_job_mapping_key(token: &str) -> (r: String)
    ensures
        r@ == backend_key("job_mapping."@ + token@),
{
    let mut s = String::from_str("job_mapping.");
    s.append(token);
    create_redis_backend_key(s.as_str())
}

/// The key where the result of the job `job_id` is or will be.
pub fn get_job_key(job_id: i32) -> (r: String)
    ensures
        r@ == backend_key("job_result."@ + int_text(job_id as int)),
{
    let mut s = String::from_str("job_result.");
    push_int(&mut s, job_id as i64);
    create_redis_backend_key(s.as_str())
}

/// The name that `str::to_lowercase` gives a text.
pub uninterp spec fn lower_of(s: Seq<char>) -> Seq<char>;

/// Relies on `str::to_lowercase`: the result depends on the characters alone.
#[verifier::external_body]
fn lowercase(s: &str) -> (r: String)
    ensures
        r@ == lower_of(s@),
{
    s.to_lowercase()
}

/// The key of the administrator `username`; user names are not case sensitive.
pub fn get_admin_key(username: &str) -> (r: String)
    ensures
        r@ == backend_key("admin.admins."@ + lower_of(username@)),
{
    let lower = lowercase(username);
    let mut s = String::from_str("admin.admins.");
    s.append(lower.as_str());
    create_redis_backend_key(s.as_str())
}

/// A salt for password hashing: eight bytes from a cryptographically strong
/// generator.
pub fn generate_salt() -> (r: Vec<u8>)
    ensures
        r@.len() == 8,
{
    crate::job::random_bytes(8)
}

/// The key of the session with token `token`.
pub fn get_session_key(token: &str) -> (r: String)
    ensures
        r@ == backend_key("sessions."@ + token@),
{
    let mut s = String::from_str("sessions.");
    s.append(token);
    create_redis_backend_key(s.as_str())
}

/// Appends the tag of `m` to `s`.
fn push_tag(s: &mut String, m: &ModuleInfo)
    ensures
        final(s)@ == old(s)@ + module_tag(m@),
{
    push_escaped(s, &m.name);
    s.append(":");
    proof {
        reveal_strlit(":");
    }
    push_escaped(s, &m.version);
    assert(final(s)@ =~= old(s)@ + module_tag(m@));
}

/// Appends the fingerprint of `job` to `s`.
fn push_fingerprint(s: &mut String, job: &JobSubmission)
    ensures
        final(s)@ == old(s)@ + fingerprint(job@),
{
    push_tag(s, &job.algorithm);
    s.append(".");
    push_int(s, job.map_id as i64);
    s.append(".");
    push_nat(s, job.start.x as u64);
    s.append(",");
    push_nat(s, job.start.y as u64);
    s.append(".");
    push_nat(s, job.stop.x as u64);
    s.append(",");
    push_nat(s, job.stop.y as u64);
    proof {
        reveal_strlit(".");
        reveal_strlit(",");
    }
    assert(final(s)@ =~= old(s)@ + fingerprint(job@));
}

/// The cache key of a job submission; no other submission has the same one.
pub fn get_job_cache_key(job: &JobSubmission) -> (r: String)
    ensures
        r@ == cache_key(job@),
        forall|other: SubmissionView| #[trigger] cache_key(other) == r@ ==> other == job@,
{
    let mut s = String::from_str("cache.");
    push_fingerprint(&mut s, job);
    let r = create_redis_backend_key(s.as_str());
    assert forall|other: SubmissionView| #[trigger] cache_key(other) == r@ implies other == job@ by {
        lemma_cache_key_injective(other, job@);
    }
    r
}

/// The scan pattern for the cache keys of `module`: its cache prefix, which
/// the pattern matches literally, then `*`. A cache key starts with that
/// prefix exactly where its submission is for `module`.
pub fn get_module_cache_pattern(module: &ModuleInfo) -> (r: String)
    ensures
        r@ == module_cache_prefix(module@) + seq!['*'],
        glob_literal(module_cache_prefix(module@)),
        forall|s: SubmissionView|
            is_prefix(module_cache_prefix(module@), #[trigger] cache_key(s)) <==> s.3 == module@,
{
    let mut s = String::from_str("cache.");
    push_tag(&mut s, module);
    s.append(".*");
    proof {
        reveal_strlit(".*");
    }
    let r = create_redis_backend_key(s.as_str());
    assert(r@ =~= module_cache_prefix(module@) + seq!['*']);
    proof {
        lemma_prefix_glob_literal(module@);
        assert forall|s: SubmissionView|
            is_prefix(module_cache_prefix(module@), #[trigger] cache_key(s)) <==> s.3 == module@ by {
            lemma_cache_prefix_exact(s, module@);
        }
    }
    r
}

/// The key holding the number of workers that `module` should have.
pub fn get_module_workers_key(module: &ModuleInfo) -> (r: String)
    ensures
        r@ == module_workers_key(module@),
{
    let mut s = String::from_str("module-workers.");
    push_module(&mut s, module);
    create_redis_backend_key(s.as_str())
}

/// The key counting the workers of `module` that are running.
pub fn get_registered_module_workers_key(module: &ModuleInfo) -> (r: String)
    ensures
        r@ == module_workers_key(module@) + ".active"@,
{
    let mut r = get_module_workers_key(module);
    r.append(".active");
    r
}

/// The fingerprint read from its end: everything after the module tag.
spec fn after_tag(s: SubmissionView) -> Seq<char> {
    int_text(s.2 as int) + seq!['.'] + nat_text(s.0.x as nat) + seq![','] + nat_text(s.0.y as nat)
        + seq!['.'] + nat_text(s.1.x as nat) + seq![','] + nat_text(s.1.y as nat)
}

proof fn lemma_fingerprint_parts(s: SubmissionView)
    ensures
        fingerprint(s) == escaped(s.3.0) + seq![':'] + (escaped(s.3.1) + seq!['.'] + after_tag(s)),
        after_tag(s) == int_text(s.2 as int) + seq!['.'] + (nat_text(s.0.x as nat) + seq![','] + (
        nat_text(s.0.y as nat) + seq!['.'] + (nat_text(s.1.x as nat) + seq![','] + nat_text(
            s.1.y as nat,
        )))),
{
    assert(fingerprint(s) =~= escaped(s.3.0) + seq![':'] + (escaped(s.3.1) + seq!['.'] + after_tag(
        s,
    )));
    assert(after_tag(s) =~= int_text(s.2 as int) + seq!['.'] + (nat_text(s.0.x as nat) + seq![',']
        + (nat_text(s.0.y as nat) + seq!['.'] + (nat_text(s.1.x as nat) + seq![','] + nat_text(
        s.1.y as nat,
    )))));
}

proof fn lemma_fingerprint_separators(s: SubmissionView)
    ensures
        no_char(escaped(s.3.0), ':'),
        no_char(escaped(s.3.1), '.'),
        no_char(int_text(s.2 as int), '.'),
        no_char(nat_text(s.0.x as nat), ','),
        no_char(nat_text(s.0.y as nat), '.'),
        no_char(nat_text(s.1.x as nat), ','),
{
    lemma_escaped_separators(s.3.0);
    lemma_escaped_separators(s.3.1);
    lemma_int_text_plain(s.2 as int);
    lemma_nat_text_digits(s.0.x as nat);
    lemma_nat_text_digits(s.0.y as nat);
    lemma_nat_text_digits(s.1.x as nat);
}

/// Different submissions have different fingerprints.
pub proof fn lemma_fingerprint_injective(a: SubmissionView, b: SubmissionView)
    requires
        fingerprint(a) == fingerprint(b),
    ensures
        a == b,
{
    lemma_fingerprint_parts(a);
    lemma_fingerprint_parts(b);
    lemma_fingerprint_separators(a);
    lemma_fingerprint_separators(b);
    lemma_split_eq(
        escaped(a.3.0),
        escaped(a.3.1) + seq!['.'] + after_tag(a),
        escaped(b.3.0),
        escaped(b.3.1) + seq!['.'] + after_tag(b),
        ':',
    );
    lemma_split_eq(escaped(a.3.1), after_tag(a), escaped(b.3.1), after_tag(b), '.');
    let a4 = nat_text(a.0.x as nat) + seq![','] + (nat_text(a.0.y as nat) + seq!['.'] + (nat_text(
        a.1.x as nat,
    ) + seq![','] + nat_text(a.1.y as nat)));
    let b4 = nat_text(b.0.x as nat) + seq![','] + (nat_text(b.0.y as nat) + seq!['.'] + (nat_text(
        b.1.x as nat,
    ) + seq![','] + nat_text(b.1.y as nat)));
    lemma_split_eq(int_text(a.2 as int), a4, int_text(b.2 as int), b4, '.');
    let a5 = nat_text(a.0.y as nat) + seq!['.'] + (nat_text(a.1.x as nat) + seq![','] + nat_text(
        a.1.y as nat,
    ));
    let b5 = nat_text(b.0.y as nat) + seq!['.'] + (nat_text(b.1.x as nat) + seq![','] + nat_text(
        b.1.y as nat,
    ));
    lemma_split_eq(nat_text(a.0.x as nat), a5, nat_text(b.0.x as nat), b5, ',');
    let a6 = nat_text(a.1.x as nat) + seq![','] + nat_text(a.1.y as nat);
    let b6 = nat_text(b.1.x as nat) + seq![','] + nat_text(b.1.y as nat);
    lemma_split_eq(nat_text(a.0.y as nat), a6, nat_text(b.0.y as nat), b6, '.');
    lemma_split_eq(
        nat_text(a.1.x as nat),
        nat_text(a.1.y as nat),
        nat_text(b.1.x as nat),
        nat_text(b.1.y as nat),
        ',',
    );
    lemma_escaped_injective(a.3.0, b.3.0);
    lemma_escaped_injective(a.3.1, b.3.1);
    lemma_int_text_injective(a.2 as int, b.2 as int);
    lemma_nat_text_injective(a.0.x as nat, b.0.x as nat);
    lemma_nat_text_injective(a.0.y as nat, b.0.y as nat);
    lemma_nat_text_injective(a.1.x as nat, b.1.x as nat);
    lemma_nat_text_injective(a.1.y as nat, b.1.y as nat);
    assert(a.0 == b.0);
    assert(a.1 == b.1);
    assert(a.3 == b.3);
}

/// Different submissions have different cache keys.
pub proof fn lemma_cache_key_injective(a: SubmissionView, b: SubmissionView)
    requires
        cache_key(a) == cache_key(b),
    ensures
        a == b,
{
    lemma_strip("laps.backend."@, "cache."@ + fingerprint(a), "cache."@ + fingerprint(b));
    lemma_strip("cache."@, fingerprint(a), fingerprint(b));
    lemma_fingerprint_injective(a, b);
}

/// A cache key starts with the cache prefix of `m` exactly where its
/// submission is for `m`: a scan for that prefix finds the keys of `m` and
/// of no other module.
pub proof fn lemma_cache_prefix_exact(s: SubmissionView, m: ModuleId)
    ensures
        is_prefix(module_cache_prefix(m), cache_key(s)) <==> s.3 == m,
{
    let lit = "laps.backend."@ + "cache."@;
    let p = escaped(m.0) + seq![':'] + (escaped(m.1) + seq!['.'] + Seq::<char>::empty());
    let k = escaped(s.3.0) + seq![':'] + (escaped(s.3.1) + seq!['.'] + after_tag(s));
    lemma_fingerprint_parts(s);
    lemma_fingerprint_separators(s);
    assert(module_cache_prefix(m) =~= lit + p);
    assert(cache_key(s) =~= lit + k);
    if s.3 == m {
        assert(k.subrange(0, p.len() as int) =~= p);
        assert((lit + k).subrange(0, (lit + p).len() as int) =~= lit + p);
    }
    if is_prefix(module_cache_prefix(m), cache_key(s)) {
        lemma_strip(lit, p, k);
        lemma_escaped_separators(m.0);
        lemma_escaped_separators(m.1);
        lemma_split(
            escaped(m.0),
            escaped(m.1) + seq!['.'] + Seq::<char>::empty(),
            escaped(s.3.0),
            escaped(s.3.1) + seq!['.'] + after_tag(s),
            ':',
        );
        lemma_split(escaped(m.1), Seq::<char>::empty(), escaped(s.3.1), after_tag(s), '.');
        lemma_escaped_injective(m.0, s.3.0);
        lemma_escaped_injective(m.1, s.3.1);
    }
}

/// The cache prefix of a module holds no pattern character.
proof fn lemma_prefix_glob_literal(m: ModuleId)
    ensures
        glob_literal(module_cache_prefix(m)),
{
    reveal_strlit("laps.backend.");
    reveal_strlit("cache.");
    lemma_escaped_chars(m.0);
    lemma_escaped_chars(m.1);
    let a = "laps.backend."@ + "cache."@;
    let e0 = escaped(m.0);
    let e1 = escaped(m.1);
    let p = module_cache_prefix(m);
    assert(p =~= a + e0 + seq![':'] + e1 + seq!['.']);
    assert forall|i: int| 0 <= i < p.len() implies !(p[i] == '*' || p[i] == '?' || p[i] == '['
        || p[i] == ']' || p[i] == '\\') by {
        if i >= a.len() && i < a.len() + e0.len() {
            assert(p[i] == e0[i - a.len()]);
        } else if i >= a.len() + e0.len() + 1 && i < a.len() + e0.len() + 1 + e1.len() {
            assert(p[i] == e1[i - a.len() - e0.len() - 1]);
        }
    }
}

} // verus!
