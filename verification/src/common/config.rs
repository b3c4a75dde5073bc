//! Application configuration, read from environment variables.
//!
//! The caller gathers the process environment (after loading `.env`) and
//! hands the variables here; every key is required and `PAGE_SIZE` must be
//! an integer.
use vstd::prelude::*;
use vstd::string::*;
use crate::text::{chars_of, str_eq};

verus! {

/// The application configuration.
pub struct Config {
    /// Site domain, without scheme (e.g. `localhost`).
    pub domain: String,
    /// Items per listing page.
    pub page_size: i64,
    /// SurrealDB connection address.
    pub db_url: String,
    /// SurrealDB namespace.
    pub db_ns: String,
    /// SurrealDB database name.
    pub db_name: String,
    /// SurrealDB user.
    pub db_user: String,
    /// SurrealDB password.
    pub db_pass: String,
    /// SMTP server address.
    pub email_smtp: String,
    /// Sender address of outgoing mail.
    pub email_from: String,
    /// SMTP user.
    pub email_username: String,
    /// SMTP password.
    pub email_password: String,
}

/// Why the configuration could not be read.
pub enum ConfigError {
    /// The variable is not set.
    Missing(&'static str),
    /// The variable is set but is not a valid integer.
    NotInteger(&'static str),
}

/// The value of the first variable named `key`.
pub open spec fn lookup(vars: Seq<(Seq<char>, Seq<char>)>, key: Seq<char>) -> Option<Seq<char>>
    decreases vars.len(),
{
    if vars.len() == 0 {
        None
    } else if vars[0].0 == key {
        Some(vars[0].1)
    } else {
        lookup(vars.drop_first(), key)
    }
}

/// The views of name/value pairs.
pub open spec fn pair_views(v: Seq<(String, String)>) -> Seq<(Seq<char>, Seq<char>)> {
    Seq::new(v.len(), |i: int| (v[i].0@, v[i].1@))
}

/// The value of a string of decimal digits.
pub open spec fn digits_value(s: Seq<char>) -> int
    decreases s.len(),
{
    if s.len() == 0 {
        0
    } else {
        digits_value(s.drop_last()) * 10 + ((s.last() as int) - 48)
    }
}

/// Signed decimal text as `str::parse::<i64>` accepts it: an optional `+`
/// or `-`, one or more ASCII digits, and a value within `i64`.
pub open spec fn parse_i64_spec(s: Seq<char>) -> Option<i64> {
    let neg = s.len() > 0 && s[0] == '-';
    let body = unsigned_body(s);
    let v = if neg {
        -digits_value(body)
    } else {
        digits_value(body)
    };
    if body.len() > 0 && (forall|i: int| 0 <= i < body.len() ==> '0' <= #[trigger] body[i] && body[i]
        <= '9') && i64::MIN <= v <= i64::MAX {
        Some(v as i64)
    } else {
        None
    }
}

proof fn lemma_digits_value_nonneg(s: Seq<char>)
    requires
        forall|i: int| 0 <= i < s.len() ==> '0' <= #[trigger] s[i] && s[i] <= '9',
    ensures
        0 <= digits_value(s),
    decreases s.len(),
{
    if s.len() > 0 {
        lemma_digits_value_nonneg(s.drop_last());
    }
}

/// `s` without a leading sign.
pub open spec fn unsigned_body(s: Seq<char>) -> Seq<char> {
    if s.len() > 0 && (s[0] == '+' || s[0] == '-') {
        s.drop_first()
    } else {
        s
    }
}

/// Parses an `i64` the way `str::parse::<i64>` does.
pub fn parse_i64(s: &str) -> (r: Option<i64>)
    ensures
        r == parse_i64_spec(s@),
{
    let cs = chars_of(s);
    let neg = cs.len() > 0 && cs[0] == '-';
    let start: usize = if cs.len() > 0 && (cs[0] == '+' || cs[0] == '-') {
        1
    } else {
        0
    };
    let mut body: Vec<char> = Vec::new();
    let mut k: usize = start;
    while k < cs.len()
        invariant
            start <= k <= cs@.len(),
            body@ == cs@.subrange(start as int, k as int),
        decreases cs.len() - k,
    {
        body.push(cs[k]);
        k += 1;
        assert(body@ =~= cs@.subrange(start as int, k as int));
    }
    assert(body@ =~= unsigned_body(s@));
    parse_signed_digits(&body, neg)
}

/// The signed value of nonempty all-digit text, when it fits in `i64`.
fn parse_signed_digits(body: &[char], neg: bool) -> (r: Option<i64>)
    ensures
        r == ({
            let v = if neg {
                -digits_value(body@)
            } else {
                digits_value(body@)
            };
            if body@.len() > 0 && (forall|i: int|
                0 <= i < body@.len() ==> '0' <= #[trigger] body@[i] && body@[i] <= '9')
                && i64::MIN <= v <= i64::MAX {
                Some(v as i64)
            } else {
                None
            }
        }),
{
    if body.len() == 0 {
        return None;
    }
    let limit: i128 = if neg {
        -9_223_372_036_854_775_808i128
    } else {
        -9_223_372_036_854_775_807i128
    };
    // The magnitude is accumulated as a non-positive number so that i64::MIN fits.
    let mut acc: i128 = 0;
    let mut over = false;
    let mut i: usize = 0;
    while i < body.len()
        invariant
            i <= body@.len(),
            limit == (if neg { i64::MIN as int } else { -(i64::MAX as int) }),
            forall|k: int| 0 <= k < i ==> '0' <= #[trigger] body@[k] && body@[k] <= '9',
            limit <= acc <= 0,
            !over ==> acc == -digits_value(body@.subrange(0, i as int)),
            over ==> -digits_value(body@.subrange(0, i as int)) < limit,
        decreases body.len() - i,
    {
        let c = body[i];
        if !(c >= '0' && c <= '9') {
            return None;
        }
        let ghost pre = body@.subrange(0, i as int);
        let ghost nxt = body@.subrange(0, i + 1);
        assert(nxt.drop_last() =~= pre);
        let d = (c as u32 - 48) as i128;
        if !over {
            let next = acc * 10 - d;
            if next < limit {
                over = true;
            } else {
                acc = next;
            }
        } else {
            proof {
                lemma_digits_value_nonneg(pre);
            }
            assert(-digits_value(nxt) <= -digits_value(pre)) by (nonlinear_arith)
                requires
                    digits_value(nxt) == digits_value(pre) * 10 + ((nxt.last() as int) - 48),
                    0 <= digits_value(pre),
                    0 <= (nxt.last() as int) - 48,
            ;
        }
        i += 1;
    }
    assert(body@.subrange(0, body@.len() as int) =~= body@);
    if over {
        None
    } else if neg {
        Some(acc as i64)
    } else {
        Some((-acc) as i64)
    }
}

/// The value of `key` among the variables.
fn lookup_exec(vars: &Vec<(String, String)>, key: &str) -> (r: Option<String>)
    ensures
        crate::common::session::opt_view(r) == lookup(pair_views(vars@), key@),
{
    let ghost pv = pair_views(vars@);
    let mut i: usize = 0;
    assert(pv.skip(0) =~= pv);
    while i < vars.len()
        invariant
            i <= vars@.len(),
            pv == pair_views(vars@),
            lookup(pv, key@) == lookup(pv.skip(i as int), key@),
        decreases vars.len() - i,
    {
        assert(pv.skip(i as int)[0] == (vars@[i as int].0@, vars@[i as int].1@));
        assert(pv.skip(i as int).drop_first() =~= pv.skip(i + 1));
        if str_eq(vars[i].0.as_str(), key) {
            return Some(vars[i].1.clone());
        }
        i += 1;
    }
    None
}

/// A required variable.
fn required(vars: &Vec<(String, String)>, key: &'static str) -> (r: Result<String, ConfigError>)
    ensures
        match r {
            Ok(v) => lookup(pair_views(vars@), key@) == Some(v@),
            Err(e) => lookup(pair_views(vars@), key@) is None && e == ConfigError::Missing(key),
        },
{
    match lookup_exec(vars, key) {
        Some(v) => Ok(v),
        None => Err(ConfigError::Missing(key)),
    }
}

/// The variables a configuration reads, in the order they are checked.
pub open spec fn config_keys() -> Seq<Seq<char>> {
    seq![
        "DOMAIN"@,
        "PAGE_SIZE"@,
        "DB_URL"@,
        "DB_NS"@,
        "DB_NAME"@,
        "DB_USER"@,
        "DB_PASS"@,
        "EMAIL_SMTP"@,
        "EMAIL_FROM"@,
        "EMAIL_USERNAME"@,
        "EMAIL_PASSWORD"@,
    ]
}

/// Every required variable is set and `PAGE_SIZE` is an integer.
pub open spec fn config_complete(vars: Seq<(Seq<char>, Seq<char>)>) -> bool {
    &&& forall|i: int| 0 <= i < 11 ==> lookup(vars, #[trigger] config_keys()[i]) is Some
    &&& parse_i64_spec(lookup(vars, "PAGE_SIZE"@)->0) is Some
}

/// The first of the required variables from index `i` on (in the order of
/// `config_keys`) that is not set, as a missing-variable problem.
pub open spec fn first_missing(vars: Seq<(Seq<char>, Seq<char>)>, i: nat) -> Option<(bool, Seq<char>)>
    decreases 11 - i,
{
    if i >= 11 {
        None
    } else if lookup(vars, config_keys()[i as int]) is None {
        Some((true, config_keys()[i as int]))
    } else {
        first_missing(vars, i + 1)
    }
}

/// The first problem met when reading the configuration, checking the
/// variables in order and `PAGE_SIZE`'s value right after `PAGE_SIZE`:
/// `(true, name)` for a missing variable, `(false, name)` for a value that
/// is not an integer.
pub open spec fn config_problem(vars: Seq<(Seq<char>, Seq<char>)>) -> Option<(bool, Seq<char>)> {
    if lookup(vars, "DOMAIN"@) is None {
        Some((true, "DOMAIN"@))
    } else if lookup(vars, "PAGE_SIZE"@) is None {
        Some((true, "PAGE_SIZE"@))
    } else if parse_i64_spec(lookup(vars, "PAGE_SIZE"@)->0) is None {
        Some((false, "PAGE_SIZE"@))
    } else {
        first_missing(vars, 2)
    }
}

/// Reads the configuration from environment variables (name/value pairs).
/// Fails with the first missing variable (in the order of `config_keys`),
/// or with `PAGE_SIZE` when it is not an integer; the fields hold the
/// variables' values.
pub fn config_from_vars(vars: &Vec<(String, String)>) -> (r: Result<Config, ConfigError>)
    ensures
        r is Ok <==> config_complete(pair_views(vars@)),
        r is Ok <==> config_problem(pair_views(vars@)) is None,
        r matches Err(ConfigError::Missing(k)) ==> config_problem(pair_views(vars@)) == Some((true, k@)),
        r matches Err(ConfigError::NotInteger(k)) ==> config_problem(pair_views(vars@)) == Some((false, k@)),
        r matches Ok(c) ==> {
            let pv = pair_views(vars@);
            &&& lookup(pv, "DOMAIN"@) == Some(c.domain@)
            &&& parse_i64_spec(lookup(pv, "PAGE_SIZE"@)->0) == Some(c.page_size)
            &&& lookup(pv, "DB_URL"@) == Some(c.db_url@)
            &&& lookup(pv, "DB_NS"@) == Some(c.db_ns@)
            &&& lookup(pv, "DB_NAME"@) == Some(c.db_name@)
            &&& lookup(pv, "DB_USER"@) == Some(c.db_user@)
            &&& lookup(pv, "DB_PASS"@) == Some(c.db_pass@)
            &&& lookup(pv, "EMAIL_SMTP"@) == Some(c.email_smtp@)
            &&& lookup(pv, "EMAIL_FROM"@) == Some(c.email_from@)
            &&& lookup(pv, "EMAIL_USERNAME"@) == Some(c.email_username@)
            &&& lookup(pv, "EMAIL_PASSWORD"@) == Some(c.email_password@)
        },
{
    let ghost pv = pair_views(vars@);
    proof {
        reveal_with_fuel(first_missing, 10);
    }
    let domain = required(vars, "DOMAIN")?;
    let page_size_text = required(vars, "PAGE_SIZE")?;
    let page_size = match parse_i64(page_size_text.as_str()) {
        Some(n) => n,
        None => return Err(ConfigError::NotInteger("PAGE_SIZE")),
    };
    let db_url = required(vars, "DB_URL")?;
    let db_ns = required(vars, "DB_NS")?;
    let db_name = required(vars, "DB_NAME")?;
    let db_user = required(vars, "DB_USER")?;
    let db_pass = required(vars, "DB_PASS")?;
    let email_smtp = required(vars, "EMAIL_SMTP")?;
    let email_from = required(vars, "EMAIL_FROM")?;
    let email_username = required(vars, "EMAIL_USERNAME")?;
    let email_password = required(vars, "EMAIL_PASSWORD")?;
    assert(config_complete(pv)) by {
        assert forall|i: int| 0 <= i < 11 implies lookup(pv, #[trigger] config_keys()[i]) is Some by {
            assert(config_keys()[0] == "DOMAIN"@);
        }
    }
    Ok(Config {
        domain,
        page_size,
        db_url,
        db_ns,
        db_name,
        db_user,
        db_pass,
        email_smtp,
        email_from,
        email_username,
        email_password,
    })
}

} // verus!
