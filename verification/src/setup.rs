//! The decisions of `hydradesk setup`, `fix`, `uninstall` and `logs`: which
//! credentials and timeout to use, which dependencies to install, what to
//! repair, and what to remove.
use vstd::prelude::*;
use crate::detect::{
    concat_str, found, has, run1, run2, run3, run4, runs, strs_of, CmdOutput, Invocation, Next, PackageManager, RunIn,
    SessionInfo, SystemState,
};
use crate::install::{lock_watcher_steps, login_autostart_steps, persistence_steps};
use crate::number::{decimal_of, parse_u64, parse_u8, parse_unsigned_of, u64_text};
use crate::rdp::{
    edid_1080p_spec, generate_password, grdctl_or_default, grdctl_or_default_of, home_of, password_alphabet,
    push_step, run_ignored, steps_of, virtual_display_steps, Check, Mark, Step, StepView, EDID_PATH,
    KEYRING_PY_PATH,
};
use crate::text::{
    begins_with, chars_of, has_sub, lower, lowercase_of, seqs_of, split, split_on, string_of, trim, trim_of,
};

verus! {

/// The words that make a password guessable wherever they occur in it,
/// whatever their case.
pub open spec fn common_words() -> Seq<Seq<char>> {
    seq![
        "testpassword"@,
        "password"@,
        "passw0rd"@,
        "letmein"@,
        "changeme"@,
        "admin"@,
        "123456"@,
        "qwerty"@,
        "hydradesk"@,
        "raspberry"@,
        "jetson"@,
        "ubuntu"@,
    ]
}

/// Why a password is too weak, if it is: fewer than 12 characters, or a
/// common word in its lowercase form.
pub open spec fn weakness_of(pw: Seq<char>) -> Option<Seq<char>> {
    if pw.len() < 12 {
        Some("must be at least 12 characters"@)
    } else if exists|i: int| 0 <= i < 12 && has_sub(lowercase_of(pw), #[trigger] common_words()[i]) {
        Some("contains a common/guessable word"@)
    } else {
        None
    }
}

/// The lowercase form of `pw` contains one of the words that make a
/// password guessable.
pub open spec fn has_common_word(pw: Seq<char>) -> bool {
    let l = lowercase_of(pw);
    has_sub(l, "testpassword"@) || has_sub(l, "password"@) || has_sub(l, "passw0rd"@) || has_sub(l, "letmein"@)
        || has_sub(l, "changeme"@) || has_sub(l, "admin"@) || has_sub(l, "123456"@) || has_sub(l, "qwerty"@)
        || has_sub(l, "hydradesk"@) || has_sub(l, "raspberry"@) || has_sub(l, "jetson"@) || has_sub(l, "ubuntu"@)
}

/// A password is refused as too short below 12 characters; else as
/// guessable exactly when its lowercase form contains one of testpassword,
/// password, passw0rd, letmein, changeme, admin, 123456, qwerty, hydradesk,
/// raspberry, jetson or ubuntu; else it is accepted.
pub proof fn lemma_weak_passwords(pw: Seq<char>)
    ensures
        pw.len() < 12 ==> weakness_of(pw) == Some("must be at least 12 characters"@),
        pw.len() >= 12 && has_common_word(pw) ==> weakness_of(pw) == Some("contains a common/guessable word"@),
        pw.len() >= 12 && !has_common_word(pw) ==> weakness_of(pw) is None,
{
    let w = common_words();
    let l = lowercase_of(pw);
    assert(w[0] == "testpassword"@ && w[1] == "password"@ && w[2] == "passw0rd"@ && w[3] == "letmein"@);
    assert(w[4] == "changeme"@ && w[5] == "admin"@ && w[6] == "123456"@ && w[7] == "qwerty"@);
    assert(w[8] == "hydradesk"@ && w[9] == "raspberry"@ && w[10] == "jetson"@ && w[11] == "ubuntu"@);
    if pw.len() >= 12 && has_common_word(pw) {
        if has_sub(l, "testpassword"@) { assert(has_sub(l, w[0])); }
        if has_sub(l, "password"@) { assert(has_sub(l, w[1])); }
        if has_sub(l, "passw0rd"@) { assert(has_sub(l, w[2])); }
        if has_sub(l, "letmein"@) { assert(has_sub(l, w[3])); }
        if has_sub(l, "changeme"@) { assert(has_sub(l, w[4])); }
        if has_sub(l, "admin"@) { assert(has_sub(l, w[5])); }
        if has_sub(l, "123456"@) { assert(has_sub(l, w[6])); }
        if has_sub(l, "qwerty"@) { assert(has_sub(l, w[7])); }
        if has_sub(l, "hydradesk"@) { assert(has_sub(l, w[8])); }
        if has_sub(l, "raspberry"@) { assert(has_sub(l, w[9])); }
        if has_sub(l, "jetson"@) { assert(has_sub(l, w[10])); }
        if has_sub(l, "ubuntu"@) { assert(has_sub(l, w[11])); }
    }
    if pw.len() >= 12 && !has_common_word(pw) {
        assert forall|i: int| 0 <= i < 12 implies !has_sub(l, #[trigger] w[i]) by {
            if i == 0 {} else if i == 1 {} else if i == 2 {} else if i == 3 {} else if i == 4 {} else if i == 5 {}
            else if i == 6 {} else if i == 7 {} else if i == 8 {} else if i == 9 {} else if i == 10 {} else {}
        }
    }
}

/// Reject obviously weak passwords (too short or containing a common word):
/// the reason, or `None` for a password that may be used.
pub fn is_weak_password(pw: &str) -> (r: Option<String>)
    ensures
        match r {
            Some(m) => weakness_of(pw@) == Some(m@),
            None => weakness_of(pw@) is None,
        },
        pw@.len() < 12 <==> (r matches Some(m) && m@ == "must be at least 12 characters"@),
        pw@.len() >= 12 && has_common_word(pw@) <==> (r matches Some(m) && m@
            == "contains a common/guessable word"@),
        r is None <==> pw@.len() >= 12 && !has_common_word(pw@),
{
    let r = weakness(pw);
    proof {
        lemma_weak_passwords(pw@);
        reveal_strlit("must be at least 12 characters");
        reveal_strlit("contains a common/guessable word");
        assert("must be at least 12 characters"@.len() != "contains a common/guessable word"@.len());
    }
    r
}

fn weakness(pw: &str) -> (r: Option<String>)
    ensures
        match r {
            Some(m) => weakness_of(pw@) == Some(m@),
            None => weakness_of(pw@) is None,
        },
{
    let v = chars_of(pw);
    if v.len() < 12 {
        return Some("must be at least 12 characters".to_owned());
    }
    let l = lower(&v);
    let common: [&str; 12] = [
        "testpassword",
        "password",
        "passw0rd",
        "letmein",
        "changeme",
        "admin",
        "123456",
        "qwerty",
        "hydradesk",
        "raspberry",
        "jetson",
        "ubuntu",
    ];
    assert(forall|i: int| 0 <= i < 12 ==> #[trigger] common@[i]@ == common_words()[i]);
    let mut i: usize = 0;
    while i < 12
        invariant
            i <= 12,
            pw@.len() >= 12,
            l@ == lowercase_of(pw@),
            forall|k: int| 0 <= k < 12 ==> #[trigger] common@[k]@ == common_words()[k],
            forall|k: int| 0 <= k < i ==> !has_sub(lowercase_of(pw@), #[trigger] common_words()[k]),
        decreases 12 - i,
    {
        if has(&l, common[i]) {
            assert(has_sub(lowercase_of(pw@), common_words()[i as int]));
            return Some("contains a common/guessable word".to_owned());
        }
        i = i + 1;
    }
    None
}

/// `value` without its trailing line breaks (`\n` and `\r`), as a password
/// read from a file or standard input is taken.
pub open spec fn trim_newlines_of(s: Seq<char>) -> Seq<char>
    decreases s.len(),
{
    if s.len() > 0 && (s.last() == '\n' || s.last() == '\r') {
        trim_newlines_of(s.drop_last())
    } else {
        s
    }
}

/// The text of `trim_newlines_of`.
pub fn trim_trailing_newlines(value: String) -> (r: String)
    ensures
        r@ == trim_newlines_of(value@),
{
    let v = chars_of(value.as_str());
    let mut n: usize = v.len();
    assert(v@.take(n as int) =~= v@);
    while n > 0 && (v[n - 1] == '\n' || v[n - 1] == '\r')
        invariant
            n <= v@.len(),
            trim_newlines_of(v@) == trim_newlines_of(v@.take(n as int)),
        decreases n,
    {
        assert(v@.take(n as int).drop_last() =~= v@.take(n - 1));
        n = n - 1;
    }
    let mut r: Vec<char> = Vec::new();
    let mut i: usize = 0;
    while i < n
        invariant
            n <= v@.len(),
            i <= n,
            r@ == v@.take(i as int),
        decreases n - i,
    {
        r.push(v[i]);
        assert(r@ =~= v@.take(i + 1));
        i = i + 1;
    }
    string_of(&r)
}

/// The private, loopback, link-local and carrier-grade NAT ranges, by the
/// first two bytes of an address.
pub open spec fn private_range(a: nat, b: nat) -> bool {
    a == 10 || (a == 172 && 16 <= b <= 31) || (a == 192 && b == 168) || a == 127 || (a == 169 && b == 254) || (a
        == 100 && 64 <= b <= 127)
}

/// Is `ip` a clearly internet-routable IPv4 address: exactly four
/// dot-separated parts, each reading as a byte, outside the private ranges?
/// Anything else is not, so that no false alarm is raised.
pub open spec fn public_ip(ip: Seq<char>) -> bool {
    let parts = split_on(ip, '.');
    &&& parts.len() == 4
    &&& forall|i: int| 0 <= i < 4 ==> parse_unsigned_of(#[trigger] parts[i], 255) is Some
    &&& !private_range(parse_unsigned_of(parts[0], 255)->0, parse_unsigned_of(parts[1], 255)->0)
}

/// The byte that the `i`-th dot-separated part of `ip` reads as.
pub open spec fn ip_byte(ip: Seq<char>, i: int) -> nat {
    parse_unsigned_of(split_on(ip, '.')[i], 255)->0
}

/// `ip` is written as four bytes separated by dots.
pub open spec fn four_bytes(ip: Seq<char>) -> bool {
    split_on(ip, '.').len() == 4 && forall|i: int| 0 <= i < 4 ==> parse_unsigned_of(#[trigger] split_on(ip, '.')[i], 255) is Some
}

/// Which addresses raise the public-address warning: none that is not
/// four bytes; none in 10.0.0.0/8, 172.16.0.0/12, 192.168.0.0/16,
/// 127.0.0.0/8, 169.254.0.0/16 or the carrier-grade NAT range
/// 100.64.0.0/10; every other four-byte address.
pub proof fn lemma_public_ip_ranges(ip: Seq<char>)
    ensures
        !four_bytes(ip) ==> !public_ip(ip),
        four_bytes(ip) && ip_byte(ip, 0) == 10 ==> !public_ip(ip),
        four_bytes(ip) && ip_byte(ip, 0) == 172 && 16 <= ip_byte(ip, 1) <= 31 ==> !public_ip(ip),
        four_bytes(ip) && ip_byte(ip, 0) == 192 && ip_byte(ip, 1) == 168 ==> !public_ip(ip),
        four_bytes(ip) && ip_byte(ip, 0) == 127 ==> !public_ip(ip),
        four_bytes(ip) && ip_byte(ip, 0) == 169 && ip_byte(ip, 1) == 254 ==> !public_ip(ip),
        four_bytes(ip) && ip_byte(ip, 0) == 100 && 64 <= ip_byte(ip, 1) <= 127 ==> !public_ip(ip),
        four_bytes(ip) && ip_byte(ip, 0) != 10 && ip_byte(ip, 0) != 127 && !(ip_byte(ip, 0) == 172 && 16
            <= ip_byte(ip, 1) <= 31) && !(ip_byte(ip, 0) == 192 && ip_byte(ip, 1) == 168) && !(ip_byte(ip, 0)
            == 169 && ip_byte(ip, 1) == 254) && !(ip_byte(ip, 0) == 100 && 64 <= ip_byte(ip, 1) <= 127)
            ==> public_ip(ip),
{
}

/// True only for a clearly internet-routable IPv4 (used to warn before
/// exposing RDP).
pub fn ip_is_public(ip: &str) -> (r: bool)
    ensures
        r == public_ip(ip@),
        r ==> four_bytes(ip@),
        four_bytes(ip@) && ip_byte(ip@, 0) == 100 && 64 <= ip_byte(ip@, 1) <= 127 ==> !r,
        four_bytes(ip@) && (ip_byte(ip@, 0) == 10 || ip_byte(ip@, 0) == 127) ==> !r,
        four_bytes(ip@) && ip_byte(ip@, 0) == 172 && 16 <= ip_byte(ip@, 1) <= 31 ==> !r,
        four_bytes(ip@) && ip_byte(ip@, 0) == 192 && ip_byte(ip@, 1) == 168 ==> !r,
        four_bytes(ip@) && ip_byte(ip@, 0) == 169 && ip_byte(ip@, 1) == 254 ==> !r,
{
    proof {
        lemma_public_ip_ranges(ip@);
    }
    let parts = split(&chars_of(ip), '.');
    if parts.len() != 4 {
        return false;
    }
    let mut oct: Vec<u8> = Vec::new();
    let mut i: usize = 0;
    while i < 4
        invariant
            i <= 4,
            parts@.len() == 4,
            seqs_of(parts@) == split_on(ip@, '.'),
            oct@.len() == i,
            forall|k: int| 0 <= k < i ==> parse_unsigned_of(#[trigger] seqs_of(parts@)[k], 255) == Some(oct@[k] as nat),
        decreases 4 - i,
    {
        assert(seqs_of(parts@)[i as int] == parts@[i as int]@);
        match parse_u8(&parts[i]) {
            Some(b) => oct.push(b),
            None => {
                assert(parse_unsigned_of(seqs_of(parts@)[i as int], 255) is None);
                return false;
            },
        }
        i = i + 1;
    }
    let a = oct[0];
    let b = oct[1];
    assert(parse_unsigned_of(seqs_of(parts@)[0], 255) == Some(a as nat));
    assert(parse_unsigned_of(seqs_of(parts@)[1], 255) == Some(b as nat));
    let private = a == 10 || (a == 172 && 16 <= b && b <= 31) || (a == 192 && b == 168) || a == 127 || (a == 169
        && b == 254) || (a == 100 && 64 <= b && b <= 127);
    !private
}

/// The Linux account whose desktop is shared (it gets auto-login and owns
/// the per-user files): the session's user, else `SUDO_USER`, else `USER`,
/// else `user`.
pub open spec fn system_user_of(session: Option<SessionInfo>, sudo_user: Option<String>, user: Option<String>) -> Seq<
    char,
> {
    match session {
        Some(s) => s.username@,
        None => match sudo_user {
            Some(u) => u@,
            None => match user {
                Some(u) => u@,
                None => "user"@,
            },
        },
    }
}

/// The text of `system_user_of`, given the values of `SUDO_USER` and `USER`.
pub fn system_user(session: &Option<SessionInfo>, sudo_user: &Option<String>, user: &Option<String>) -> (r: String)
    ensures
        r@ == system_user_of(*session, *sudo_user, *user),
{
    match session {
        Some(s) => s.username.as_str().to_owned(),
        None => match sudo_user {
            Some(u) => u.as_str().to_owned(),
            None => match user {
                Some(u) => u.as_str().to_owned(),
                None => "user".to_owned(),
            },
        },
    }
}

/// The RDP user name: the one given (trimmed) when it is not blank; else,
/// on a terminal, the answer to a prompt (trimmed), the system user when
/// the answer is blank; else the system user. `entered` is the line typed
/// at the prompt, once it was shown; until then, on a terminal, the prompt
/// is asked for.
pub open spec fn rdp_user_of(
    username_arg: Option<String>,
    system_user: Seq<char>,
    interactive: bool,
    entered: Option<String>,
) -> Next<Seq<char>, Seq<char>> {
    match username_arg {
        Some(u) if trim_of(u@).len() > 0 => Next::Done(trim_of(u@)),
        _ => if interactive {
            match entered {
                None => Next::Probe("  RDP username ["@ + system_user + "]: "@),
                Some(e) => if trim_of(e@).len() == 0 {
                    Next::Done(system_user)
                } else {
                    Next::Done(trim_of(e@))
                },
            }
        } else {
            Next::Done(system_user)
        },
    }
}

/// The decision of `rdp_user_of`: the prompt to show, or the user name.
pub fn resolve_rdp_user(
    username_arg: &Option<String>,
    system_user: &str,
    interactive: bool,
    entered: &Option<String>,
) -> (r: Next<String, String>)
    ensures
        match (r, rdp_user_of(*username_arg, system_user@, interactive, *entered)) {
            (Next::Probe(p), Next::Probe(q)) => p@ == q,
            (Next::Done(u), Next::Done(v)) => u@ == v,
            _ => false,
        },
{
    match username_arg {
        Some(u) => {
            let t = trim(&chars_of(u.as_str()));
            if t.len() > 0 {
                return Next::Done(string_of(&t));
            }
        },
        None => {},
    }
    if !interactive {
        return Next::Done(system_user.to_owned());
    }
    match entered {
        None => {
            let a = concat_str("  RDP username [", system_user);
            Next::Probe(concat_str(a.as_str(), "]: "))
        },
        Some(e) => {
            let t = trim(&chars_of(e.as_str()));
            if t.len() == 0 {
                Next::Done(system_user.to_owned())
            } else {
                Next::Done(string_of(&t))
            }
        },
    }
}

/// What the first entry at the password prompt (and, once asked, its
/// confirmation) leads to.
#[derive(Debug, Clone)]
pub enum PasswordPrompt {
    /// Stop prompting: with the password chosen, or with none when the
    /// entry was blank (one is then generated).
    Chosen(Option<String>),
    /// Ask for the same password again.
    Confirm,
    /// Show this line and start over.
    Retry(String),
}

/// One round of the password prompt, given the first entry `p1` and the
/// confirmation `p2` once it was asked. A password is chosen only when it
/// is not weak and both entries agree.
pub open spec fn password_prompt_of(p1: Seq<char>, p2: Option<Seq<char>>) -> (Option<Option<Seq<char>>>, Option<Seq<char>>) {
    if trim_of(p1).len() == 0 {
        (Some(None), None)
    } else if weakness_of(p1) is Some {
        (None, Some("Too weak: "@ + weakness_of(p1)->0 + ". Try again."@))
    } else {
        match p2 {
            None => (None, None),
            Some(q) => if q == p1 {
                (Some(Some(p1)), None)
            } else {
                (None, Some("Passwords did not match. Try again."@))
            },
        }
    }
}

/// The decision of `password_prompt_of`: chosen (`.0`), the line of a
/// retry (`.1`), or, when neither, ask for the confirmation.
pub fn password_prompt(p1: &str, p2: &Option<String>) -> (r: PasswordPrompt)
    ensures
        ({
            let (chosen, retry) = password_prompt_of(
                p1@,
                match *p2 {
                    Some(q) => Some(q@),
                    None => None,
                },
            );
            match r {
                PasswordPrompt::Chosen(c) => chosen == Some(
                    match c {
                        Some(p) => Some(p@),
                        None => None,
                    },
                ),
                PasswordPrompt::Confirm => chosen is None && retry is None,
                PasswordPrompt::Retry(m) => chosen is None && retry == Some(m@),
            }
        }),
        r matches PasswordPrompt::Chosen(Some(p)) ==> weakness_of(p@) is None && p@ == p1@,
{
    if trim(&chars_of(p1)).len() == 0 {
        return PasswordPrompt::Chosen(None);
    }
    match is_weak_password(p1) {
        Some(reason) => {
            let a = concat_str("Too weak: ", reason.as_str());
            return PasswordPrompt::Retry(concat_str(a.as_str(), ". Try again."));
        },
        None => {},
    }
    match p2 {
        None => PasswordPrompt::Confirm,
        Some(q) => {
            let first = p1.to_owned();
            if first == *q {
                PasswordPrompt::Chosen(Some(first))
            } else {
                PasswordPrompt::Retry("Passwords did not match. Try again.".to_owned())
            }
        },
    }
}

/// A password HydraDesk generated: 20 characters of the password alphabet.
pub open spec fn generated_ok(p: Seq<char>) -> bool {
    p.len() == 20 && forall|i: int| 0 <= i < 20 ==> password_alphabet().contains(#[trigger] p[i])
}

/// The RDP password and whether HydraDesk generated it. A password given
/// on the command line is used unless weak, which refuses it. Without one,
/// on a terminal, the prompt decides (`prompted`, once it ran: the chosen
/// password, or none to generate one); else a strong one is generated.
pub fn resolve_password(password_arg: &Option<String>, interactive: bool, prompted: &Option<Option<String>>) -> (r:
    Next<(), Result<(String, bool), String>>)
    ensures
        (password_arg is None && interactive && prompted is None) <==> r is Probe,
        password_arg matches Some(p) ==> match r {
            Next::Done(Err(e)) => weakness_of(p@) matches Some(w) && e@ == "Refusing weak RDP password ("@ + w
                + "). Choose a stronger one."@,
            Next::Done(Ok((q, generated))) => weakness_of(p@) is None && q@ == p@ && !generated,
            _ => false,
        },
        password_arg is None ==> match r {
            Next::Done(Ok((q, generated))) => match prompted {
                Some(Some(c)) if interactive => q@ == c@ && !generated,
                _ => generated && generated_ok(q@),
            },
            Next::Done(Err(_)) => false,
            Next::Probe(_) => true,
        },
{
    match password_arg {
        Some(p) => match is_weak_password(p.as_str()) {
            Some(reason) => {
                let a = concat_str("Refusing weak RDP password (", reason.as_str());
                Next::Done(Err(concat_str(a.as_str(), "). Choose a stronger one.")))
            },
            None => Next::Done(Ok((p.as_str().to_owned(), false))),
        },
        None => {
            if interactive {
                match prompted {
                    None => return Next::Probe(()),
                    Some(Some(c)) => return Next::Done(Ok((c.as_str().to_owned(), false))),
                    Some(None) => {},
                }
            }
            let g = generate_password();
            Next::Done(Ok((g, true)))
        },
    }
}

/// Minutes of no RDP client before the screen locks: the one given;
/// else, on a terminal, the number typed at the prompt (0 when it is not
/// one); else 0, never. `entered` is the line typed, once the prompt was
/// shown.
pub open spec fn lock_timeout_of(arg: Option<u64>, interactive: bool, entered: Option<String>) -> Next<(), nat> {
    match arg {
        Some(m) => Next::Done(m as nat),
        None => if interactive {
            match entered {
                None => Next::Probe(()),
                Some(e) => Next::Done(
                    match parse_unsigned_of(trim_of(e@), u64::MAX as nat) {
                        Some(v) => v,
                        None => 0,
                    },
                ),
            }
        } else {
            Next::Done(0)
        },
    }
}

/// The prompt for the lock timeout.
pub open spec fn lock_prompt() -> Seq<char> {
    "  Lock the screen how many minutes after the last RDP client disconnects? [0 = never]: "@
}

/// The decision of `lock_timeout_of`; a prompt carries the text of
/// `lock_prompt`.
pub fn resolve_lock_timeout(arg: Option<u64>, interactive: bool, entered: &Option<String>) -> (r: Next<String, u64>)
    ensures
        match (r, lock_timeout_of(arg, interactive, *entered)) {
            (Next::Probe(p), Next::Probe(())) => p@ == lock_prompt(),
            (Next::Done(m), Next::Done(n)) => m as nat == n,
            _ => false,
        },
{
    match arg {
        Some(m) => Next::Done(m),
        None => if interactive {
            match entered {
                None => Next::Probe(
                    "  Lock the screen how many minutes after the last RDP client disconnects? [0 = never]: ".to_owned(),
                ),
                Some(e) => Next::Done(
                    match parse_u64(&trim(&chars_of(e.as_str()))) {
                        Some(v) => v,
                        None => 0,
                    },
                ),
            }
        } else {
            Next::Done(0)
        },
    }
}

/// The lock timeout in seconds: the minutes times 60, at most `u64::MAX`.
pub fn lock_timeout_secs(minutes: u64) -> (r: u64)
    ensures
        r == if minutes * 60 > u64::MAX { u64::MAX as int } else { minutes * 60 },
{
    if minutes > u64::MAX / 60 {
        u64::MAX
    } else {
        minutes * 60
    }
}

/// Does the answer to "Reboot now to activate? (y/N)" say yes? Only `y`
/// or `Y`, around spaces.
pub fn confirms_reboot(input: &str) -> (r: bool)
    ensures
        r == (trim_of(input@) == seq!['y'] || trim_of(input@) == seq!['Y']),
{
    let t = trim(&chars_of(input));
    let r = t.len() == 1 && (t[0] == 'y' || t[0] == 'Y');
    proof {
        if t@.len() == 1 {
            if t@[0] == 'y' {
                assert(t@ =~= seq!['y']);
            }
            if t@[0] == 'Y' {
                assert(t@ =~= seq!['Y']);
            }
        }
    }
    r
}

/// Setup activates RDP at once only with a live Wayland session; otherwise
/// it is left to the next login.
pub fn activates_now(display_server: crate::detect::DisplayServer, session: &Option<SessionInfo>) -> (r: bool)
    ensures
        r == (display_server == crate::detect::DisplayServer::Wayland && session is Some),
{
    display_server == crate::detect::DisplayServer::Wayland && session.is_some()
}

/// What checking or installing the dependencies needs next: a command's
/// answer, or which package manager the host has.
#[derive(Debug, Clone)]
pub enum DepsProbe {
    Run(Invocation),
    PackageManager,
}

/// Installing what is missing of `gnome-remote-desktop` and the python3
/// dbus bindings; their package names are the same on Debian and Fedora,
/// only the package manager differs.
pub open spec fn deps_steps(needs_grd: bool, needs_pydbus: bool, pm: PackageManager) -> Seq<StepView> {
    match pm {
        PackageManager::Apt => seq![run_ignored("apt-get"@, seq!["update"@, "-qq"@], RunIn::Quiet)] + (if needs_grd {
            seq![
                StepView::Say("  Installing gnome-remote-desktop..."@),
                run_ignored("apt-get"@, seq!["install"@, "-y"@, "-q"@, "gnome-remote-desktop"@], RunIn::System),
            ]
        } else {
            Seq::empty()
        }) + (if needs_pydbus {
            seq![
                StepView::Say("  Installing python3-dbus..."@),
                run_ignored("apt-get"@, seq!["install"@, "-y"@, "-q"@, "python3-dbus"@], RunIn::System),
            ]
        } else {
            Seq::empty()
        }),
        PackageManager::Dnf => (if needs_grd {
            seq![
                StepView::Say("  Installing gnome-remote-desktop..."@),
                run_ignored("dnf"@, seq!["install"@, "-y"@, "gnome-remote-desktop"@], RunIn::System),
            ]
        } else {
            Seq::empty()
        }) + (if needs_pydbus {
            seq![
                StepView::Say("  Installing python3-dbus..."@),
                run_ignored("dnf"@, seq!["install"@, "-y"@, "python3-dbus"@], RunIn::System),
            ]
        } else {
            Seq::empty()
        }),
        PackageManager::Unknown => seq![
            StepView::Note(Mark::Warn, "No supported package manager (apt/dnf) found."@),
            StepView::Say("    Install manually: gnome-remote-desktop, python3-dbus"@),
        ],
    }
}

fn push_say(r: &mut Vec<Step>, text: &str)
    ensures
        steps_of(final(r)@) == steps_of(old(r)@).push(StepView::Say(text@)),
{
    push_step(r, Step::Say(text.to_owned()));
}

fn push_run(r: &mut Vec<Step>, inv: Invocation)
    ensures
        steps_of(final(r)@) == steps_of(old(r)@).push(
            StepView::Run(inv.program@, strs_of(inv.args@), inv.run_in, Check::Ignore),
        ),
{
    push_step(r, Step::Run { inv, check: Check::Ignore });
}

/// Check the dependencies and install what is missing: `which grdctl`
/// tells whether GNOME Remote Desktop is there, `python3 -c "import dbus"`
/// whether the dbus bindings are; `outputs` holds their answers as asked.
/// With nothing missing there is only a line saying so; else the package
/// manager `pm` is needed (asked for while it is `None`).
pub fn install_deps(outputs: &Vec<Option<CmdOutput>>, pm: Option<PackageManager>) -> (r: Next<DepsProbe, Vec<Step>>)
    ensures
        outputs@.len() == 0 ==> (r matches Next::Probe(DepsProbe::Run(inv)) && runs(
            inv,
            "which"@,
            seq!["grdctl"@],
            RunIn::Quiet,
        )),
        outputs@.len() == 1 ==> (r matches Next::Probe(DepsProbe::Run(inv)) && runs(
            inv,
            "python3"@,
            seq!["-c"@, "import dbus"@],
            RunIn::Quiet,
        )),
        outputs@.len() >= 2 ==> ({
            let needs_grd = !found(outputs@[0]);
            let needs_pydbus = !found(outputs@[1]);
            if !needs_grd && !needs_pydbus {
                r matches Next::Done(steps) && steps_of(steps@) == seq![
                    StepView::Note(Mark::Done, "All dependencies present"@),
                ]
            } else {
                match pm {
                    None => r matches Next::Probe(DepsProbe::PackageManager),
                    Some(m) => r matches Next::Done(steps) && steps_of(steps@) == deps_steps(
                        needs_grd,
                        needs_pydbus,
                        m,
                    ),
                }
            }
        }),
{
    if outputs.len() == 0 {
        return Next::Probe(DepsProbe::Run(run1("which", "grdctl", RunIn::Quiet)));
    }
    if outputs.len() == 1 {
        return Next::Probe(DepsProbe::Run(run2("python3", "-c", "import dbus", RunIn::Quiet)));
    }
    let needs_grd = !was_found(&outputs[0]);
    let needs_pydbus = !was_found(&outputs[1]);
    let mut r: Vec<Step> = Vec::new();
    if !needs_grd && !needs_pydbus {
        push_step(&mut r, Step::Note(Mark::Done, "All dependencies present".to_owned()));
        assert(steps_of(r@) =~= seq![StepView::Note(Mark::Done, "All dependencies present"@)]);
        return Next::Done(r);
    }
    let m = match pm {
        None => return Next::Probe(DepsProbe::PackageManager),
        Some(m) => m,
    };
    match m {
        PackageManager::Apt => {
            push_run(&mut r, run2("apt-get", "update", "-qq", RunIn::Quiet));
            if needs_grd {
                push_say(&mut r, "  Installing gnome-remote-desktop...");
                push_run(&mut r, run4("apt-get", "install", "-y", "-q", "gnome-remote-desktop", RunIn::System));
            }
            if needs_pydbus {
                push_say(&mut r, "  Installing python3-dbus...");
                push_run(&mut r, run4("apt-get", "install", "-y", "-q", "python3-dbus", RunIn::System));
            }
        },
        PackageManager::Dnf => {
            if needs_grd {
                push_say(&mut r, "  Installing gnome-remote-desktop...");
                push_run(&mut r, run3("dnf", "install", "-y", "gnome-remote-desktop", RunIn::System));
            }
            if needs_pydbus {
                push_say(&mut r, "  Installing python3-dbus...");
                push_run(&mut r, run3("dnf", "install", "-y", "python3-dbus", RunIn::System));
            }
        },
        PackageManager::Unknown => {
            push_step(&mut r, Step::Note(Mark::Warn, "No supported package manager (apt/dnf) found.".to_owned()));
            push_say(&mut r, "    Install manually: gnome-remote-desktop, python3-dbus");
        },
    }
    assert(steps_of(r@) =~= deps_steps(needs_grd, needs_pydbus, m));
    Next::Done(r)
}

fn was_found(o: &Option<CmdOutput>) -> (r: bool)
    ensures
        r == found(*o),
{
    match o {
        Some(c) => c.success,
        None => false,
    }
}

/// What `hydradesk fix` attempts, by what was detected: install GNOME
/// Remote Desktop when `grdctl` is missing, restart the service when RDP is
/// enabled but nothing listens, and open the firewall when the port
/// listens.
#[derive(Debug, Clone, Copy)]
pub struct FixPlan {
    pub install_grdctl: bool,
    pub restart_service: bool,
    pub open_firewall: bool,
}

/// The repairs of `FixPlan` that apply to `state`.
pub fn fix_plan(state: &SystemState) -> (r: FixPlan)
    ensures
        r.install_grdctl == (state.grdctl_path is None),
        r.restart_service == (state.rdp_enabled && !state.rdp_port_open),
        r.open_firewall == state.rdp_port_open,
{
    FixPlan {
        install_grdctl: state.grdctl_path.is_none(),
        restart_service: state.rdp_enabled && !state.rdp_port_open,
        open_firewall: state.rdp_port_open,
    }
}

/// The command that installs GNOME Remote Desktop with the package
/// manager, as root; none without a supported one.
pub fn grd_install_command(pm: PackageManager) -> (r: Option<Invocation>)
    ensures
        match pm {
            PackageManager::Apt => r matches Some(inv) && runs(
                inv,
                "apt-get"@,
                seq!["install"@, "-y"@, "gnome-remote-desktop"@],
                RunIn::System,
            ),
            PackageManager::Dnf => r matches Some(inv) && runs(
                inv,
                "dnf"@,
                seq!["install"@, "-y"@, "gnome-remote-desktop"@],
                RunIn::System,
            ),
            PackageManager::Unknown => r is None,
        },
{
    match pm {
        PackageManager::Apt => Some(run3("apt-get", "install", "-y", "gnome-remote-desktop", RunIn::System)),
        PackageManager::Dnf => Some(run3("dnf", "install", "-y", "gnome-remote-desktop", RunIn::System)),
        PackageManager::Unknown => None,
    }
}

/// The command that restarts GNOME Remote Desktop in the session.
pub fn restart_command() -> (r: Invocation)
    ensures
        runs(r, "systemctl"@, seq!["--user"@, "restart"@, "gnome-remote-desktop.service"@], RunIn::Session),
{
    run3("systemctl", "--user", "restart", "gnome-remote-desktop.service", RunIn::Session)
}

/// The line reporting a repair, and whether it fixed something.
#[derive(Debug, Clone)]
pub struct Outcome {
    pub mark: Mark,
    pub text: String,
    pub fixed: bool,
}

/// The report of installing GNOME Remote Desktop: `None` without a
/// package manager, else the command's result (`Err` holds why it could
/// not be run).
pub open spec fn install_outcome_of(r: Option<Result<CmdOutput, String>>) -> (Mark, Seq<char>, bool) {
    match r {
        Some(Ok(o)) => if o.success {
            (Mark::Done, "gnome-remote-desktop installed"@, true)
        } else {
            (Mark::Fail, "package install failed:\n"@ + o.stderr@, false)
        },
        Some(Err(e)) => (Mark::Fail, "package manager not available: "@ + e@, false),
        None => (
            Mark::Fail,
            "No supported package manager (apt/dnf) found — install gnome-remote-desktop manually."@,
            false,
        ),
    }
}

/// The report of `install_outcome_of`.
pub fn install_outcome(r: &Option<Result<CmdOutput, String>>) -> (o: Outcome)
    ensures
        (o.mark, o.text@, o.fixed) == install_outcome_of(*r),
{
    match r {
        Some(Ok(c)) => if c.success {
            Outcome { mark: Mark::Done, text: "gnome-remote-desktop installed".to_owned(), fixed: true }
        } else {
            Outcome { mark: Mark::Fail, text: concat_str("package install failed:\n", c.stderr.as_str()), fixed: false }
        },
        Some(Err(e)) => Outcome {
            mark: Mark::Fail,
            text: concat_str("package manager not available: ", e.as_str()),
            fixed: false,
        },
        None => Outcome {
            mark: Mark::Fail,
            text: "No supported package manager (apt/dnf) found — install gnome-remote-desktop manually.".to_owned(),
            fixed: false,
        },
    }
}

/// The report of restarting the service (`Err` holds why it could not be run).
pub open spec fn restart_outcome_of(r: Result<CmdOutput, String>) -> (Mark, Seq<char>, bool) {
    match r {
        Ok(o) => if o.success {
            (Mark::Done, "Service restarted"@, true)
        } else {
            (Mark::Fail, "Restart failed:\n"@ + o.stderr@, false)
        },
        Err(e) => (Mark::Fail, "Could not restart: "@ + e@, false),
    }
}

/// The report of `restart_outcome_of`.
pub fn restart_outcome(r: &Result<CmdOutput, String>) -> (o: Outcome)
    ensures
        (o.mark, o.text@, o.fixed) == restart_outcome_of(*r),
{
    match r {
        Ok(c) => if c.success {
            Outcome { mark: Mark::Done, text: "Service restarted".to_owned(), fixed: true }
        } else {
            Outcome { mark: Mark::Fail, text: concat_str("Restart failed:\n", c.stderr.as_str()), fixed: false }
        },
        Err(e) => Outcome { mark: Mark::Fail, text: concat_str("Could not restart: ", e.as_str()), fixed: false },
    }
}

/// The report of opening the firewall: its error, or that the port is open.
pub fn firewall_outcome(r: &Result<(), String>) -> (o: Outcome)
    ensures
        match r {
            Ok(()) => o.mark == Mark::Done && o.text@ == "Port 3389 opened"@ && o.fixed,
            Err(e) => o.mark == Mark::Fail && o.text@ == e@ && !o.fixed,
        },
{
    match r {
        Ok(()) => Outcome { mark: Mark::Done, text: "Port 3389 opened".to_owned(), fixed: true },
        Err(e) => Outcome { mark: Mark::Fail, text: e.as_str().to_owned(), fixed: false },
    }
}

/// What `hydradesk uninstall` does, for the shared user `user`: stop and
/// disable the virtual display; with a detected session, disable GNOME
/// Remote Desktop (with `grdctl`) and its service; remove the installed
/// files, the shared directory and the per-user files; reload systemd;
/// remove the binary. Failures are not errors.
pub open spec fn uninstall_steps(user: Seq<char>, session: Option<SessionInfo>, grdctl: Seq<char>) -> Seq<StepView> {
    let home = home_of(user);
    seq![
        StepView::Say("  Stopping virtual display service..."@),
        run_ignored("systemctl"@, seq!["stop"@, "hydradesk-display.service"@], RunIn::System),
        run_ignored("systemctl"@, seq!["disable"@, "hydradesk-display.service"@], RunIn::System),
    ] + (if session is Some {
        seq![
            StepView::Say("  Disabling GNOME Remote Desktop..."@),
            run_ignored(grdctl, seq!["rdp"@, "disable"@], RunIn::Session),
            run_ignored(
                "systemctl"@,
                seq!["--user"@, "disable"@, "--now"@, "gnome-remote-desktop.service"@],
                RunIn::Session,
            ),
        ]
    } else {
        Seq::empty()
    }) + seq![
        StepView::Say("  Removing installed files..."@),
        StepView::RemoveFile("/usr/local/bin/hydradesk-display-init"@),
        StepView::RemoveFile("/etc/systemd/system/hydradesk-display.service"@),
        StepView::RemoveTree("/usr/local/share/hydradesk"@),
        StepView::RemoveFile(home + "/.local/bin/hydradesk-rdp-init"@),
        StepView::RemoveFile(home + "/.config/autostart/hydradesk-rdp.desktop"@),
        StepView::RemoveFile(home + "/.local/bin/hydradesk-lock-watch"@),
        StepView::RemoveFile(home + "/.config/autostart/hydradesk-lock.desktop"@),
        run_ignored("systemctl"@, seq!["daemon-reload"@], RunIn::System),
        StepView::RemoveFile("/usr/local/bin/hydradesk"@),
    ]
}

/// The steps of `uninstall_steps`; `state` is what could be detected, if
/// anything, and `user` the shared user (`system_user`).
pub fn uninstall(state: &Option<SystemState>, user: &str) -> (r: Vec<Step>)
    ensures
        steps_of(r@) == uninstall_steps(
            user@,
            match state {
                Some(st) => st.session,
                None => None,
            },
            match state {
                Some(st) => grdctl_or_default_of(st.grdctl_path),
                None => "/usr/bin/grdctl"@,
            },
        ),
{
    let home = concat_str("/home/", user);
    let mut r: Vec<Step> = Vec::new();
    push_say(&mut r, "  Stopping virtual display service...");
    push_run(&mut r, run2("systemctl", "stop", "hydradesk-display.service", RunIn::System));
    push_run(&mut r, run2("systemctl", "disable", "hydradesk-display.service", RunIn::System));
    match state {
        Some(st) => if st.session.is_some() {
            let grdctl = grdctl_or_default(&st.grdctl_path);
            push_say(&mut r, "  Disabling GNOME Remote Desktop...");
            push_run(&mut r, run2(grdctl.as_str(), "rdp", "disable", RunIn::Session));
            push_run(&mut r, run4("systemctl", "--user", "disable", "--now", "gnome-remote-desktop.service", RunIn::Session));
        },
        None => {},
    }
    push_say(&mut r, "  Removing installed files...");
    push_step(&mut r, Step::RemoveFile("/usr/local/bin/hydradesk-display-init".to_owned()));
    push_step(&mut r, Step::RemoveFile("/etc/systemd/system/hydradesk-display.service".to_owned()));
    push_step(&mut r, Step::RemoveTree("/usr/local/share/hydradesk".to_owned()));
    push_step(&mut r, Step::RemoveFile(concat_str(home.as_str(), "/.local/bin/hydradesk-rdp-init")));
    push_step(&mut r, Step::RemoveFile(concat_str(home.as_str(), "/.config/autostart/hydradesk-rdp.desktop")));
    push_step(&mut r, Step::RemoveFile(concat_str(home.as_str(), "/.local/bin/hydradesk-lock-watch")));
    push_step(&mut r, Step::RemoveFile(concat_str(home.as_str(), "/.config/autostart/hydradesk-lock.desktop")));
    push_run(&mut r, run1("systemctl", "daemon-reload", RunIn::System));
    push_step(&mut r, Step::RemoveFile("/usr/local/bin/hydradesk".to_owned()));
    let ghost session = match state {
        Some(st) => st.session,
        None => None,
    };
    let ghost g = match state {
        Some(st) => grdctl_or_default_of(st.grdctl_path),
        None => "/usr/bin/grdctl"@,
    };
    assert(steps_of(r@) =~= uninstall_steps(user@, session, g));
    r
}

/// The arguments of `journalctl` for GNOME Remote Desktop's log: followed,
/// or the last `lines` lines since `since`.
pub open spec fn journal_args_of(lines: usize, since: Seq<char>, follow: bool) -> Seq<Seq<char>> {
    seq!["--user"@, "-u"@, "gnome-remote-desktop.service"@, "--no-pager"@] + if follow {
        seq!["-f"@]
    } else {
        seq!["--since"@, since, "-n"@, decimal_of(lines as nat)]
    }
}

/// The arguments of `journal_args_of` (`hydradesk logs`).
pub fn journal_args(lines: usize, since: &str, follow: bool) -> (r: Vec<String>)
    ensures
        strs_of(r@) == journal_args_of(lines, since@, follow),
{
    let mut r: Vec<String> = Vec::new();
    r.push("--user".to_owned());
    r.push("-u".to_owned());
    r.push("gnome-remote-desktop.service".to_owned());
    r.push("--no-pager".to_owned());
    if follow {
        r.push("-f".to_owned());
    } else {
        r.push("--since".to_owned());
        r.push(since.to_owned());
        r.push("-n".to_owned());
        r.push(string_of(&u64_text(lines as u64)));
    }
    assert(strs_of(r@) =~= journal_args_of(lines, since@, follow));
    r
}

/// `steps` removes the file at `path`: by itself, or with a directory that
/// holds it.
pub open spec fn removes(steps: Seq<StepView>, path: Seq<char>) -> bool {
    exists|j: int|
        0 <= j < steps.len() && (steps[j] == StepView::RemoveFile(path) || (steps[j] matches StepView::RemoveTree(
            d,
        ) && begins_with(path, d + "/"@)))
}

/// Every file that `steps` writes is removed by `removal`.
pub open spec fn writes_removed(steps: Seq<StepView>, removal: Seq<StepView>) -> bool {
    forall|i: int| 0 <= i < steps.len() ==> (#[trigger] steps[i] matches StepView::Write(p, _, _) ==> removes(removal, p))
}

proof fn lemma_writes_removed_concat(a: Seq<StepView>, b: Seq<StepView>, removal: Seq<StepView>)
    requires
        writes_removed(a, removal),
        writes_removed(b, removal),
    ensures
        writes_removed(a + b, removal),
{
    assert forall|i: int| 0 <= i < (a + b).len() implies (#[trigger] (a + b)[i] matches StepView::Write(p, _, _)
        ==> removes(removal, p)) by {
        if i < a.len() {
            assert((a + b)[i] == a[i]);
        } else {
            assert((a + b)[i] == b[i - a.len()]);
        }
    }
}

/// Where the files that uninstall removes lie among its steps: after the
/// steps that come before the removals.
proof fn lemma_uninstall_removes(user: Seq<char>, session: Option<SessionInfo>, grdctl: Seq<char>)
    ensures
        ({
            let u = uninstall_steps(user, session, grdctl);
            let home = home_of(user);
            &&& removes(u, "/usr/local/bin/hydradesk-display-init"@)
            &&& removes(u, "/etc/systemd/system/hydradesk-display.service"@)
            &&& forall|p: Seq<char>| begins_with(p, "/usr/local/share/hydradesk"@ + "/"@) ==> removes(u, p)
            &&& removes(u, home + "/.local/bin/hydradesk-rdp-init"@)
            &&& removes(u, home + "/.config/autostart/hydradesk-rdp.desktop"@)
            &&& removes(u, home + "/.local/bin/hydradesk-lock-watch"@)
            &&& removes(u, home + "/.config/autostart/hydradesk-lock.desktop"@)
        }),
{
    let u = uninstall_steps(user, session, grdctl);
    let home = home_of(user);
    let k: int = if session is Some { 3 } else { 0 };
    assert(u[4 + k] == StepView::RemoveFile("/usr/local/bin/hydradesk-display-init"@));
    assert(u[5 + k] == StepView::RemoveFile("/etc/systemd/system/hydradesk-display.service"@));
    assert(u[6 + k] == StepView::RemoveTree("/usr/local/share/hydradesk"@));
    assert(u[7 + k] == StepView::RemoveFile(home + "/.local/bin/hydradesk-rdp-init"@));
    assert(u[8 + k] == StepView::RemoveFile(home + "/.config/autostart/hydradesk-rdp.desktop"@));
    assert(u[9 + k] == StepView::RemoveFile(home + "/.local/bin/hydradesk-lock-watch"@));
    assert(u[10 + k] == StepView::RemoveFile(home + "/.config/autostart/hydradesk-lock.desktop"@));
}

/// Uninstalling removes every file that setup's reboot-persistent install
/// wrote for the same shared user, whatever the monitor, the credentials,
/// the lock timeout, and whatever else uninstall detected.
pub proof fn lemma_uninstall_removes_installed_files(
    has_monitor: bool,
    user: Seq<char>,
    rdp_user: Seq<char>,
    rdp_password: Seq<char>,
    lock_timeout_secs: u64,
    session: Option<SessionInfo>,
    grdctl: Seq<char>,
)
    ensures
        writes_removed(
            persistence_steps(has_monitor, user, rdp_user, rdp_password, lock_timeout_secs),
            uninstall_steps(user, session, grdctl),
        ),
{
    let u = uninstall_steps(user, session, grdctl);
    let home = home_of(user);
    lemma_uninstall_removes(user, session, grdctl);
    reveal_strlit("/usr/local/share/hydradesk");
    reveal_strlit("/");
    reveal_strlit("/usr/local/share/hydradesk/edid-1080p.bin");
    reveal_strlit("/usr/local/share/hydradesk/keyring-alias.py");
    reveal_strlit("/.local/bin");
    reveal_strlit("/.config/autostart");
    reveal_strlit("/hydradesk-rdp-init");
    reveal_strlit("/hydradesk-rdp.desktop");
    reveal_strlit(".local/bin/hydradesk-lock-watch");
    reveal_strlit(".config/autostart/hydradesk-lock.desktop");
    reveal_strlit("/.local/bin/hydradesk-rdp-init");
    reveal_strlit("/.config/autostart/hydradesk-rdp.desktop");
    reveal_strlit("/.local/bin/hydradesk-lock-watch");
    reveal_strlit("/.config/autostart/hydradesk-lock.desktop");
    let first = if has_monitor {
        seq![
            StepView::Note(
                Mark::Info,
                "Physical monitor detected — GNOME already has a framebuffer, skipping virtual display"@,
            ),
        ]
    } else {
        virtual_display_steps(edid_1080p_spec())
    };
    assert(writes_removed(first, u)) by {
        if !has_monitor {
            let v = virtual_display_steps(edid_1080p_spec());
            let dir = "/usr/local/share/hydradesk"@ + "/"@;
            assert(EDID_PATH@ == "/usr/local/share/hydradesk/edid-1080p.bin"@);
            assert(EDID_PATH@.subrange(0, dir.len() as int) =~= dir);
            assert(KEYRING_PY_PATH@.subrange(0, dir.len() as int) =~= dir);
            assert(begins_with(EDID_PATH@, dir));
            assert(begins_with(KEYRING_PY_PATH@, dir));
            assert forall|i: int| 0 <= i < v.len() implies (#[trigger] v[i] matches StepView::Write(p, _, _)
                ==> removes(u, p)) by {
                if i == 1 {
                    assert(v[1] matches StepView::Write(p, _, _) && p == EDID_PATH@);
                } else if i == 2 {
                    assert(v[2] matches StepView::Write(p, _, _) && p == KEYRING_PY_PATH@);
                }
            }
        }
    }
    let login = login_autostart_steps(user, rdp_user, rdp_password, lock_timeout_secs > 0);
    assert(writes_removed(login, u)) by {
        assert(home + "/.local/bin"@ + "/hydradesk-rdp-init"@ =~= home + "/.local/bin/hydradesk-rdp-init"@);
        assert(home + "/.config/autostart"@ + "/hydradesk-rdp.desktop"@ =~= home
            + "/.config/autostart/hydradesk-rdp.desktop"@);
    }
    let watcher = lock_watcher_steps(user, lock_timeout_secs);
    assert(writes_removed(watcher, u)) by {
        assert(home + "/"@ + ".local/bin/hydradesk-lock-watch"@ =~= home + "/.local/bin/hydradesk-lock-watch"@);
        assert(home + "/"@ + ".config/autostart/hydradesk-lock.desktop"@ =~= home
            + "/.config/autostart/hydradesk-lock.desktop"@);
    }
    lemma_writes_removed_concat(first, login, u);
    lemma_writes_removed_concat(first + login, watcher, u);
}

/// Why a command that changes the system refuses to run: it must be run as
/// root. `None` when it is.
pub fn root_refusal(is_root: bool, command: &str) -> (r: Option<String>)
    ensures
        is_root <==> r is None,
        r matches Some(m) ==> m@ == "hydradesk "@ + command@ + " must be run as root.  Try:  sudo hydradesk "@
            + command@,
{
    if is_root {
        None
    } else {
        let a = concat_str("hydradesk ", command);
        let b = concat_str(a.as_str(), " must be run as root.  Try:  sudo hydradesk ");
        Some(concat_str(b.as_str(), command))
    }
}

/// Setup stops before installing anything unless the desktop is GNOME: the
/// name of the desktop found, or `None` for GNOME.
pub fn desktop_refusal(desktop: &crate::detect::DesktopEnvironment) -> (r: Option<String>)
    ensures
        (desktop@ == crate::detect::DesktopKind::Gnome) <==> r is None,
        r matches Some(found) ==> found@ == crate::detect::desktop_label(desktop@),
{
    if desktop.is_gnome() {
        None
    } else {
        Some(desktop.label())
    }
}

/// Locking and unlocking need a graphical session: the error without one.
pub fn session_refusal(session: &Option<SessionInfo>, action: &str) -> (r: Option<String>)
    ensures
        session is Some <==> r is None,
        r matches Some(m) ==> m@ == "No active graphical session to "@ + action@ + "."@,
{
    match session {
        Some(_) => None,
        None => {
            let a = concat_str("No active graphical session to ", action);
            Some(concat_str(a.as_str(), "."))
        },
    }
}

} // verus!
