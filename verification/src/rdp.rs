//! What `hydradesk setup` installs and runs: the virtual display's EDID, the
//! per-login scripts, GDM auto-login, the firewall rule, the lock commands,
//! and the checks of GNOME Remote Desktop's state.
use vstd::prelude::*;
use rand::Rng;
use vstd::string::StrSliceExecFns;
use crate::number::{decimal_of, parse_u8, parse_unsigned_of, u64_text};
use crate::detect::{
    asks, has, is, run1, run2, run3, run4, runs, strs_of, CmdOutput, Invocation, Next, RunIn, SessionInfo,
};
use crate::text::{
    chars_of, copy_chars, extend, has_sub, index_from, join_of, lines, lines_of, seqs_of, split,
    split_on, string_of, strip_prefix, strip_prefix_of, trim, trim_of,
};

verus! {

/// Where HydraDesk keeps its shared files.
pub const SHARE_DIR: &'static str = "/usr/local/share/hydradesk";
/// The EDID file that the virtual display forces onto a connector.
pub const EDID_PATH: &'static str = "/usr/local/share/hydradesk/edid-1080p.bin";
/// The script that points the keyring's `default` alias at the session collection.
pub const KEYRING_PY_PATH: &'static str = "/usr/local/share/hydradesk/keyring-alias.py";
/// The script that brings up the virtual display.
pub const DISPLAY_INIT_PATH: &'static str = "/usr/local/bin/hydradesk-display-init";
/// The root service that runs it at boot.
pub const DISPLAY_SERVICE: &'static str = "hydradesk-display.service";
/// Its unit file.
pub const DISPLAY_SERVICE_PATH: &'static str = "/etc/systemd/system/hydradesk-display.service";

/// Point the secret-service `default` alias at the in-memory `session` collection.
pub const KEYRING_PY: &'static str = r#"import dbus
# Point the secret-service 'default' alias at the always-present in-memory
# 'session' collection. On an autologin box no persistent 'login' keyring is
# ever unlocked, so this is what lets grdctl store RDP credentials.
try:
    bus = dbus.SessionBus()
    svc = dbus.Interface(
        bus.get_object("org.freedesktop.secrets", "/org/freedesktop/secrets"),
        "org.freedesktop.Secret.Service",
    )
    svc.OpenSession("plain", dbus.String("", variant_level=1))
    svc.SetAlias("default", dbus.ObjectPath("/org/freedesktop/secrets/collection/session"))
    print("hydradesk: keyring default->session alias set")
except Exception as e:
    print("hydradesk keyring alias error:", e)
"#;

/// Force a DP/HDMI connector on with the EDID until GNOME adopts it.
pub const DISPLAY_INIT_SH: &'static str = r#"#!/bin/bash
# HydraDesk: bring up a virtual display so a headless GNOME session renders a
# real desktop that GNOME Remote Desktop can mirror over RDP. The GPU driver
# clears an early force when it re-probes during KMS/login bringup, so we
# re-apply only while a connector keeps reverting, and stop once it has stayed
# connected long enough for GNOME to adopt it. Capped at 120s as a backstop.
EDID=/usr/local/share/hydradesk/edid-1080p.bin

force_on() {
  for st in /sys/class/drm/card*-*/status; do
    name=$(basename "$(dirname "$st")"); name=${name#card*-}
    case "$name" in
      DP-*|HDMI-*)
        for d in /sys/kernel/debug/dri/*/"$name"/edid_override; do
          [ -e "$d" ] && [ -f "$EDID" ] && cat "$EDID" > "$d" 2>/dev/null
        done
        echo on > "$st" 2>/dev/null ;;
    esac
  done
}

# Succeeds only if at least one DP/HDMI connector exists and all are connected.
all_connected() {
  local found=1
  for st in /sys/class/drm/card*-*/status; do
    name=$(basename "$(dirname "$st")"); name=${name#card*-}
    case "$name" in
      DP-*|HDMI-*)
        found=0
        [ "$(cat "$st" 2>/dev/null)" = "connected" ] || return 1 ;;
    esac
  done
  return $found
}

end=$((SECONDS+120))
stable=0
while [ "$SECONDS" -lt "$end" ]; do
  if all_connected; then
    stable=$((stable+1))
    [ "$stable" -ge 6 ] && break   # ~18s connected with no reset -> GNOME has it
  else
    force_on
    stable=0
  fi
  sleep 3
done
"#;

/// The unit of the virtual display service.
pub const DISPLAY_SERVICE_UNIT: &'static str = "[Unit]\n\
Description=HydraDesk virtual display for headless RDP\n\
After=sys-kernel-debug.mount systemd-udevd.service\n\
\n\
[Service]\n\
Type=simple\n\
ExecStart=/usr/local/bin/hydradesk-display-init\n\
\n\
[Install]\n\
WantedBy=multi-user.target\n";

/// The bytes of the 1920x1080@60 EDID before its checksum byte is set.
pub open spec fn edid_base() -> Seq<u8> {
    seq![
        0x00u8, 0xffu8, 0xffu8, 0xffu8, 0xffu8, 0xffu8, 0xffu8, 0x00u8, 0x31u8, 0xd8u8, 0x00u8, 0x00u8, 0x00u8, 0x00u8, 0x00u8, 0x00u8,
        0x05u8, 0x16u8, 0x01u8, 0x03u8, 0x80u8, 0x50u8, 0x2du8, 0x78u8, 0x0au8, 0x0du8, 0xc9u8, 0xa0u8, 0x57u8, 0x47u8, 0x98u8, 0x27u8,
        0x12u8, 0x48u8, 0x4cu8, 0x00u8, 0x00u8, 0x00u8, 0x01u8, 0x01u8, 0x01u8, 0x01u8, 0x01u8, 0x01u8, 0x01u8, 0x01u8, 0x01u8, 0x01u8,
        0x01u8, 0x01u8, 0x01u8, 0x01u8, 0x01u8, 0x01u8, 0x02u8, 0x3au8, 0x80u8, 0x18u8, 0x71u8, 0x38u8, 0x2du8, 0x40u8, 0x58u8, 0x2cu8,
        0x45u8, 0x00u8, 0xa0u8, 0x5au8, 0x00u8, 0x00u8, 0x00u8, 0x1eu8, 0x00u8, 0x00u8, 0x00u8, 0xffu8, 0x00u8, 0x4cu8, 0x69u8, 0x6eu8,
        0x75u8, 0x78u8, 0x20u8, 0x23u8, 0x30u8, 0x0au8, 0x20u8, 0x20u8, 0x20u8, 0x20u8, 0x00u8, 0x00u8, 0x00u8, 0xfdu8, 0x00u8, 0x3bu8,
        0x3du8, 0x42u8, 0x44u8, 0x0fu8, 0x00u8, 0x0au8, 0x20u8, 0x20u8, 0x20u8, 0x20u8, 0x20u8, 0x20u8, 0x00u8, 0x00u8, 0x00u8, 0xfcu8,
        0x00u8, 0x4cu8, 0x69u8, 0x6eu8, 0x75u8, 0x78u8, 0x20u8, 0x46u8, 0x48u8, 0x44u8, 0x0au8, 0x20u8, 0x20u8, 0x20u8, 0x00u8, 0x00u8
    ]
}

/// The sum of the bytes of `b`.
pub open spec fn byte_sum(b: Seq<u8>) -> nat
    decreases b.len(),
{
    if b.len() == 0 {
        0
    } else {
        byte_sum(b.drop_last()) + b.last() as nat
    }
}

/// The checksum byte that makes 127 bytes and itself sum to a multiple of 256.
pub open spec fn checksum_byte(head: Seq<u8>) -> u8 {
    ((256 - byte_sum(head) % 256) % 256) as u8
}

/// The 1920x1080@60 EDID: the fixed block, then its checksum byte.
pub open spec fn edid_1080p_spec() -> Seq<u8> {
    edid_base().take(127).push(checksum_byte(edid_base().take(127)))
}

/// Build a valid 128-byte 1920x1080@60 EDID with a correct checksum: the
/// first 127 bytes are the fixed block, and the last makes all 128 bytes
/// sum to a multiple of 256.
pub fn edid_1080p() -> (r: [u8; 128])
    ensures
        r@ == edid_1080p_spec(),
        r@.len() == 128,
        byte_sum(r@) % 256 == 0,
{
    let mut e: [u8; 128] = [
        0x00u8, 0xffu8, 0xffu8, 0xffu8, 0xffu8, 0xffu8, 0xffu8, 0x00u8, 0x31u8, 0xd8u8, 0x00u8, 0x00u8, 0x00u8, 0x00u8, 0x00u8, 0x00u8,
        0x05u8, 0x16u8, 0x01u8, 0x03u8, 0x80u8, 0x50u8, 0x2du8, 0x78u8, 0x0au8, 0x0du8, 0xc9u8, 0xa0u8, 0x57u8, 0x47u8, 0x98u8, 0x27u8,
        0x12u8, 0x48u8, 0x4cu8, 0x00u8, 0x00u8, 0x00u8, 0x01u8, 0x01u8, 0x01u8, 0x01u8, 0x01u8, 0x01u8, 0x01u8, 0x01u8, 0x01u8, 0x01u8,
        0x01u8, 0x01u8, 0x01u8, 0x01u8, 0x01u8, 0x01u8, 0x02u8, 0x3au8, 0x80u8, 0x18u8, 0x71u8, 0x38u8, 0x2du8, 0x40u8, 0x58u8, 0x2cu8,
        0x45u8, 0x00u8, 0xa0u8, 0x5au8, 0x00u8, 0x00u8, 0x00u8, 0x1eu8, 0x00u8, 0x00u8, 0x00u8, 0xffu8, 0x00u8, 0x4cu8, 0x69u8, 0x6eu8,
        0x75u8, 0x78u8, 0x20u8, 0x23u8, 0x30u8, 0x0au8, 0x20u8, 0x20u8, 0x20u8, 0x20u8, 0x00u8, 0x00u8, 0x00u8, 0xfdu8, 0x00u8, 0x3bu8,
        0x3du8, 0x42u8, 0x44u8, 0x0fu8, 0x00u8, 0x0au8, 0x20u8, 0x20u8, 0x20u8, 0x20u8, 0x20u8, 0x20u8, 0x00u8, 0x00u8, 0x00u8, 0xfcu8,
        0x00u8, 0x4cu8, 0x69u8, 0x6eu8, 0x75u8, 0x78u8, 0x20u8, 0x46u8, 0x48u8, 0x44u8, 0x0au8, 0x20u8, 0x20u8, 0x20u8, 0x00u8, 0x00u8
    ];
    assert(e@ =~= edid_base());
    let mut sum: u32 = 0;
    let mut i: usize = 0;
    while i < 127
        invariant
            i <= 127,
            e@ == edid_base(),
            sum == byte_sum(e@.take(i as int)),
            sum <= 255 * i,
        decreases 127 - i,
    {
        assert(e@.take(i + 1).drop_last() =~= e@.take(i as int));
        sum = sum + e[i] as u32;
        i = i + 1;
    }
    let check: u8 = ((256 - (sum % 256)) % 256) as u8;
    let ghost before = e@;
    e[127] = check;
    assert(e@.take(127) =~= before.take(127));
    assert(e@.drop_last() =~= before.take(127));
    assert((sum + check as u32) % 256 == 0) by (nonlinear_arith)
        requires
            check == (256 - (sum % 256)) % 256,
    ;
    assert(e@ =~= edid_1080p_spec());
    e
}


/// How one character is written inside single quotes: a quote closes the
/// quoting, adds an escaped quote, and reopens it.
pub open spec fn quote_piece(c: char) -> Seq<char> {
    if c == '\'' {
        seq!['\'', '\\', '\'', '\'']
    } else {
        seq![c]
    }
}

/// `s` with each single quote written as `'\''`.
pub open spec fn escape_quotes(s: Seq<char>) -> Seq<char>
    decreases s.len(),
{
    if s.len() == 0 {
        Seq::empty()
    } else {
        escape_quotes(s.drop_last()) + quote_piece(s.last())
    }
}

/// `s` as one single-quoted shell word.
pub open spec fn single_quoted(s: Seq<char>) -> Seq<char> {
    seq!['\''] + escape_quotes(s) + seq!['\'']
}

/// Quote a value for safe single-quoted embedding in a generated bash script.
pub fn sh_single_quote(s: &str) -> (r: String)
    ensures
        r@ == single_quoted(s@),
        r@.len() >= 2 && r@[0] == '\'' && r@.last() == '\'',
        shell_word(r@) == Some(s@),
{
    proof {
        lemma_single_quoted_reads_back(s@);
    }
    let v = chars_of(s);
    let mut out: Vec<char> = Vec::new();
    out.push('\'');
    let mut i: usize = 0;
    while i < v.len()
        invariant
            i <= v.len(),
            v@ == s@,
            out@ == seq!['\''] + escape_quotes(v@.take(i as int)),
        decreases v.len() - i,
    {
        assert(v@.take(i + 1).drop_last() =~= v@.take(i as int));
        let c = v[i];
        if c == '\'' {
            out.push('\'');
            out.push('\\');
            out.push('\'');
            out.push('\'');
        } else {
            out.push(c);
        }
        assert(out@ =~= seq!['\''] + escape_quotes(v@.take(i + 1)));
        i = i + 1;
    }
    out.push('\'');
    assert(v@.take(v.len() as int) =~= v@);
    assert(out@ =~= single_quoted(s@));
    string_of(&out)
}

pub proof fn lemma_index_from_bounds(s: Seq<char>, c: char, k: int)
    ensures
        index_from(s, c, k) matches Some(j) ==> k <= j < s.len() && s[j] == c,
    decreases s.len() - k,
{
    if 0 <= k < s.len() && s[k] != c {
        lemma_index_from_bounds(s, c, k + 1);
    }
}

/// The value the shell gives a word made of single-quoted runs and
/// backslash-escaped characters (`None` for any other word). Such a word is
/// one word: nothing in it is expanded and nothing splits it.
pub open spec fn shell_word(w: Seq<char>) -> Option<Seq<char>>
    decreases w.len(),
{
    if w.len() == 0 {
        Some(Seq::empty())
    } else if w[0] == '\'' {
        match index_from(w, '\'', 1) {
            Some(j) => {
                proof {
                    lemma_index_from_bounds(w, '\'', 1);
                }
                match shell_word(w.skip(j + 1)) {
                    Some(rest) => Some(w.subrange(1, j) + rest),
                    None => None,
                }
            },
            None => None,
        }
    } else if w[0] == '\\' && w.len() >= 2 {
        match shell_word(w.skip(2)) {
            Some(rest) => Some(seq![w[1]] + rest),
            None => None,
        }
    } else {
        None
    }
}

proof fn lemma_index_from_found(s: Seq<char>, c: char, k: int, j: int)
    requires
        0 <= k <= j < s.len(),
        s[j] == c,
        forall|i: int| k <= i < j ==> s[i] != c,
    ensures
        index_from(s, c, k) == Some(j),
    decreases j - k,
{
    if k < j {
        lemma_index_from_found(s, c, k + 1, j);
    }
}

proof fn lemma_escape_concat(a: Seq<char>, b: Seq<char>)
    ensures
        escape_quotes(a + b) == escape_quotes(a) + escape_quotes(b),
    decreases b.len(),
{
    if b.len() == 0 {
        assert(a + b =~= a);
        assert(escape_quotes(a) + escape_quotes(b) =~= escape_quotes(a));
    } else {
        lemma_escape_concat(a, b.drop_last());
        assert((a + b).drop_last() =~= a + b.drop_last());
        assert(escape_quotes(a) + escape_quotes(b) =~= escape_quotes(a) + escape_quotes(b.drop_last())
            + quote_piece(b.last()));
    }
}

proof fn lemma_escape_plain(a: Seq<char>)
    requires
        forall|i: int| 0 <= i < a.len() ==> a[i] != '\'',
    ensures
        escape_quotes(a) == a,
    decreases a.len(),
{
    if a.len() > 0 {
        lemma_escape_plain(a.drop_last());
        assert(escape_quotes(a) =~= a.drop_last() + seq![a.last()]);
        assert(a.drop_last() + seq![a.last()] =~= a);
    }
}

/// The quoted word reads back, in the shell, as exactly the value quoted:
/// whatever characters a password or user name holds, the generated script
/// passes it to `grdctl` unchanged.
pub proof fn lemma_single_quoted_reads_back(s: Seq<char>)
    ensures
        shell_word(single_quoted(s)) == Some(s),
    decreases s.len(),
{
    let w = single_quoted(s);
    if forall|i: int| 0 <= i < s.len() ==> s[i] != '\'' {
        lemma_escape_plain(s);
        assert(w =~= seq!['\''] + s + seq!['\'']);
        lemma_index_from_found(w, '\'', 1, (s.len() as int + 1));
        assert(w.skip((s.len() as int + 2)) =~= Seq::<char>::empty());
        assert(w.subrange(1, (s.len() as int + 1)) =~= s);
        assert(shell_word(Seq::<char>::empty()) == Some(Seq::<char>::empty()));
        assert(s + Seq::<char>::empty() =~= s);
        assert(shell_word(w) == Some(s));
    } else {
        let q = choose|i: int| 0 <= i < s.len() && s[i] == '\'';
        let k = first_quote(s, q);
        let a = s.take(k);
        let b = s.skip(k + 1);
        assert(s =~= a + seq!['\''] + b);
        lemma_escape_concat(a + seq!['\''], b);
        lemma_escape_concat(a, seq!['\'']);
        assert(escape_quotes(seq!['\'']) =~= seq!['\'', '\\', '\'', '\'']) by {
            assert(seq!['\''].drop_last() =~= Seq::<char>::empty());
            assert(escape_quotes(Seq::<char>::empty()) == Seq::<char>::empty());
        }
        lemma_escape_plain(a);
        let t = seq!['\\', '\''] + single_quoted(b);
        assert(w =~= seq!['\''] + a + seq!['\''] + t);
        lemma_index_from_found(w, '\'', 1, (a.len() as int + 1));
        assert(w.skip((a.len() as int + 2)) =~= t);
        assert(w.subrange(1, (a.len() as int + 1)) =~= a);
        assert(t.skip(2) =~= single_quoted(b));
        lemma_single_quoted_reads_back(b);
        assert(t[0] == '\\' && t[1] == '\'');
        assert(shell_word(t) == Some(seq!['\''] + b));
        assert(a + (seq!['\''] + b) =~= s);
        assert(shell_word(w) == Some(s));
    }
}

/// The index of the first single quote of `s`, given that `q` holds one.
proof fn first_quote(s: Seq<char>, q: int) -> (k: int)
    requires
        0 <= q < s.len(),
        s[q] == '\'',
    ensures
        0 <= k <= q,
        s[k] == '\'',
        forall|i: int| 0 <= i < k ==> s[i] != '\'',
    decreases q,
{
    if exists|i: int| 0 <= i < q && s[i] == '\'' {
        let p = choose|i: int| 0 <= i < q && s[i] == '\'';
        first_quote(s, p)
    } else {
        q
    }
}


/// The per-login script that re-stores the RDP credentials and restarts
/// GNOME Remote Desktop on every login; the user name and password are
/// single-quoted, and the screen stays lockable only with auto-lock on.
pub open spec fn login_script_of(rdp_user: Seq<char>, rdp_password: Seq<char>, lock_enabled: bool) -> Seq<char> {
    "#!/bin/bash\n# HydraDesk per-login RDP setup — auto-generated by 'hydradesk setup'.\n# The GNOME keyring is in-memory under autologin, so credentials must be\n# re-stored on every login. This file is chmod 700 — protect the device.\nsleep 4\nexport DBUS_SESSION_BUS_ADDRESS=\"unix:path=/run/user/$(id -u)/bus\"\nexport XDG_RUNTIME_DIR=\"/run/user/$(id -u)\"\npython3 /usr/local/share/hydradesk/keyring-alias.py\ngrdctl rdp enable\ngrdctl rdp disable-view-only\ngrdctl rdp set-credentials "@ + single_quoted(rdp_user) + " "@ + single_quoted(rdp_password) + "\ngsettings set org.gnome.desktop.screensaver lock-enabled "@ + (if lock_enabled {
        "true"@
    } else {
        "false"@
    }) + "\ngsettings set org.gnome.desktop.screensaver idle-activation-enabled false\ngsettings set org.gnome.desktop.session idle-delay 0\nsystemctl --user enable gnome-remote-desktop.service\nsystemctl --user restart gnome-remote-desktop.service\n"@
}

/// The per-login RDP setup script.
pub fn login_init_script(rdp_user: &str, rdp_password: &str, lock_enabled: bool) -> (r: String)
    ensures
        r@ == login_script_of(rdp_user@, rdp_password@, lock_enabled),
{
    let u = sh_single_quote(rdp_user);
    let p = sh_single_quote(rdp_password);
    let mut v = chars_of("#!/bin/bash\n# HydraDesk per-login RDP setup — auto-generated by 'hydradesk setup'.\n# The GNOME keyring is in-memory under autologin, so credentials must be\n# re-stored on every login. This file is chmod 700 — protect the device.\nsleep 4\nexport DBUS_SESSION_BUS_ADDRESS=\"unix:path=/run/user/$(id -u)/bus\"\nexport XDG_RUNTIME_DIR=\"/run/user/$(id -u)\"\npython3 /usr/local/share/hydradesk/keyring-alias.py\ngrdctl rdp enable\ngrdctl rdp disable-view-only\ngrdctl rdp set-credentials ");
    extend(&mut v, &chars_of(u.as_str()));
    extend(&mut v, &chars_of(" "));
    extend(&mut v, &chars_of(p.as_str()));
    extend(&mut v, &chars_of("\ngsettings set org.gnome.desktop.screensaver lock-enabled "));
    extend(&mut v, &chars_of(if lock_enabled { "true" } else { "false" }));
    extend(&mut v, &chars_of("\ngsettings set org.gnome.desktop.screensaver idle-activation-enabled false\ngsettings set org.gnome.desktop.session idle-delay 0\nsystemctl --user enable gnome-remote-desktop.service\nsystemctl --user restart gnome-remote-desktop.service\n"));
    string_of(&v)
}

/// The watcher that locks the session `timeout_secs` seconds after the last
/// RDP client disconnects and unlocks it on reconnect (0: it exits at once).
pub open spec fn lock_watch_script_of(timeout_secs: u64) -> Seq<char> {
    "#!/bin/bash\n# HydraDesk disconnect-lock watcher — auto-generated by 'hydradesk setup'.\n# Locks the GNOME session TIMEOUT seconds after the last RDP client drops,\n# and unlocks it when a client reconnects. TIMEOUT=0 disables locking.\nTIMEOUT="@ + decimal_of(timeout_secs as nat) + "\n[ \"$TIMEOUT\" -le 0 ] && exit 0\n\nexport XDG_RUNTIME_DIR=\"/run/user/$(id -u)\"\nexport DBUS_SESSION_BUS_ADDRESS=\"unix:path=${XDG_RUNTIME_DIR}/bus\"\nSID=\"${XDG_SESSION_ID:-$(loginctl list-sessions --no-legend 2>/dev/null | awk -v u=\"$(id -un)\" '$3==u{print $1; exit}')}\"\n\nrdp_clients() {\n  ss -tn 2>/dev/null | awk 'NR>1 && $1==\"ESTAB\" && $4 ~ /:3389$/' | wc -l\n}\nlock_now() {\n  gsettings set org.gnome.desktop.screensaver lock-enabled true 2>/dev/null\n  loginctl lock-session \"$SID\" 2>/dev/null \\\n    || gdbus call --session -d org.gnome.ScreenSaver -o /org/gnome/ScreenSaver -m org.gnome.ScreenSaver.SetActive true >/dev/null 2>&1\n}\nunlock_now() {\n  loginctl unlock-session \"$SID\" 2>/dev/null\n  gdbus call --session -d org.gnome.ScreenSaver -o /org/gnome/ScreenSaver -m org.gnome.ScreenSaver.SetActive false >/dev/null 2>&1\n}\n\nseen=0; locked=0; idle=0\nwhile true; do\n  n=$(rdp_clients)\n  if [ \"$n\" -gt 0 ]; then\n    seen=1; idle=0\n    if [ \"$locked\" -eq 1 ]; then unlock_now; locked=0; fi\n  elif [ \"$seen\" -eq 1 ] && [ \"$locked\" -eq 0 ]; then\n    idle=$((idle+3))\n    if [ \"$idle\" -ge \"$TIMEOUT\" ]; then lock_now; locked=1; fi\n  fi\n  sleep 3\ndone\n"@
}

/// The disconnect-lock watcher script.
pub fn lock_watch_script(timeout_secs: u64) -> (r: String)
    ensures
        r@ == lock_watch_script_of(timeout_secs),
{
    let mut v = chars_of("#!/bin/bash\n# HydraDesk disconnect-lock watcher — auto-generated by 'hydradesk setup'.\n# Locks the GNOME session TIMEOUT seconds after the last RDP client drops,\n# and unlocks it when a client reconnects. TIMEOUT=0 disables locking.\nTIMEOUT=");
    extend(&mut v, &u64_text(timeout_secs));
    extend(&mut v, &chars_of("\n[ \"$TIMEOUT\" -le 0 ] && exit 0\n\nexport XDG_RUNTIME_DIR=\"/run/user/$(id -u)\"\nexport DBUS_SESSION_BUS_ADDRESS=\"unix:path=${XDG_RUNTIME_DIR}/bus\"\nSID=\"${XDG_SESSION_ID:-$(loginctl list-sessions --no-legend 2>/dev/null | awk -v u=\"$(id -un)\" '$3==u{print $1; exit}')}\"\n\nrdp_clients() {\n  ss -tn 2>/dev/null | awk 'NR>1 && $1==\"ESTAB\" && $4 ~ /:3389$/' | wc -l\n}\nlock_now() {\n  gsettings set org.gnome.desktop.screensaver lock-enabled true 2>/dev/null\n  loginctl lock-session \"$SID\" 2>/dev/null \\\n    || gdbus call --session -d org.gnome.ScreenSaver -o /org/gnome/ScreenSaver -m org.gnome.ScreenSaver.SetActive true >/dev/null 2>&1\n}\nunlock_now() {\n  loginctl unlock-session \"$SID\" 2>/dev/null\n  gdbus call --session -d org.gnome.ScreenSaver -o /org/gnome/ScreenSaver -m org.gnome.ScreenSaver.SetActive false >/dev/null 2>&1\n}\n\nseen=0; locked=0; idle=0\nwhile true; do\n  n=$(rdp_clients)\n  if [ \"$n\" -gt 0 ]; then\n    seen=1; idle=0\n    if [ \"$locked\" -eq 1 ]; then unlock_now; locked=0; fi\n  elif [ \"$seen\" -eq 1 ] && [ \"$locked\" -eq 0 ]; then\n    idle=$((idle+3))\n    if [ \"$idle\" -ge \"$TIMEOUT\" ]; then lock_now; locked=1; fi\n  fi\n  sleep 3\ndone\n"));
    string_of(&v)
}

/// The autostart entry that runs `<bin_dir>/<program>` at login under `name`.
pub open spec fn autostart_entry_of(name: Seq<char>, bin_dir: Seq<char>, program: Seq<char>) -> Seq<char> {
    "[Desktop Entry]\nType=Application\nName="@ + name + "\nExec="@ + bin_dir + "/"@ + program
        + "\nX-GNOME-Autostart-enabled=true\nNoDisplay=true\n"@
}

fn autostart_entry(name: &str, bin_dir: &str, program: &str) -> (r: String)
    ensures
        r@ == autostart_entry_of(name@, bin_dir@, program@),
{
    let mut v = chars_of("[Desktop Entry]\nType=Application\nName=");
    extend(&mut v, &chars_of(name));
    extend(&mut v, &chars_of("\nExec="));
    extend(&mut v, &chars_of(bin_dir));
    extend(&mut v, &chars_of("/"));
    extend(&mut v, &chars_of(program));
    extend(&mut v, &chars_of("\nX-GNOME-Autostart-enabled=true\nNoDisplay=true\n"));
    string_of(&v)
}

/// The autostart entry of the per-login RDP setup script.
pub fn login_autostart_entry(bin_dir: &str) -> (r: String)
    ensures
        r@ == autostart_entry_of("HydraDesk RDP"@, bin_dir@, "hydradesk-rdp-init"@),
{
    autostart_entry("HydraDesk RDP", bin_dir, "hydradesk-rdp-init")
}

/// The autostart entry of the disconnect-lock watcher.
pub fn lock_autostart_entry(bin_dir: &str) -> (r: String)
    ensures
        r@ == autostart_entry_of("HydraDesk Lock Watch"@, bin_dir@, "hydradesk-lock-watch"@),
{
    autostart_entry("HydraDesk Lock Watch", bin_dir, "hydradesk-lock-watch")
}

/// The files HydraDesk keeps in the shared user's home directory.
#[derive(Debug, Clone)]
pub struct UserFiles {
    pub home: String,
    pub bin_dir: String,
    pub autostart_dir: String,
    pub rdp_init: String,
    pub rdp_desktop: String,
    pub lock_watch: String,
    pub lock_desktop: String,
    /// `user:user`, for `chown`.
    pub owner: String,
}

/// `/home/<user>`.
pub open spec fn home_of(user: Seq<char>) -> Seq<char> {
    "/home/"@ + user
}

/// Where the files of `user_files` lie.
pub open spec fn user_files_ok(user: Seq<char>, f: UserFiles) -> bool {
    let home = home_of(user);
    &&& f.home@ == home
    &&& f.bin_dir@ == home + "/.local/bin"@
    &&& f.autostart_dir@ == home + "/.config/autostart"@
    &&& f.rdp_init@ == home + "/.local/bin"@ + "/hydradesk-rdp-init"@
    &&& f.rdp_desktop@ == home + "/.config/autostart"@ + "/hydradesk-rdp.desktop"@
    &&& f.lock_watch@ == home + "/"@ + ".local/bin/hydradesk-lock-watch"@
    &&& f.lock_desktop@ == home + "/"@ + ".config/autostart/hydradesk-lock.desktop"@
    &&& f.owner@ == user + ":"@ + user
}

pub(crate) fn joined(a: &str, b: &str) -> (r: String)
    ensures
        r@ == a@ + b@,
{
    let mut v = chars_of(a);
    extend(&mut v, &chars_of(b));
    string_of(&v)
}

/// The per-user files for the Linux account whose desktop is shared.
pub fn user_files(system_user: &str) -> (r: UserFiles)
    ensures
        user_files_ok(system_user@, r),
{
    let home = joined("/home/", system_user);
    let bin_dir = joined(home.as_str(), "/.local/bin");
    let autostart_dir = joined(home.as_str(), "/.config/autostart");
    let rdp_init = joined(bin_dir.as_str(), "/hydradesk-rdp-init");
    let rdp_desktop = joined(autostart_dir.as_str(), "/hydradesk-rdp.desktop");
    let slash = joined(home.as_str(), "/");
    let lock_watch = joined(slash.as_str(), ".local/bin/hydradesk-lock-watch");
    let lock_desktop = joined(slash.as_str(), ".config/autostart/hydradesk-lock.desktop");
    let colon = joined(system_user, ":");
    let owner = joined(colon.as_str(), system_user);
    UserFiles { home, bin_dir, autostart_dir, rdp_init, rdp_desktop, lock_watch, lock_desktop, owner }
}

/// GDM's configuration that logs `username` in automatically.
pub open spec fn autologin_config_of(username: Seq<char>) -> Seq<char> {
    "[daemon]\nAutomaticLoginEnable=true\nAutomaticLogin="@ + username
        + "\n\n[security]\n\n[xdmcp]\n\n[chooser]\n\n[debug]\n"@
}

/// The contents of GDM's `custom.conf` that enable auto-login for `username`.
pub fn autologin_config(username: &str) -> (r: String)
    ensures
        r@ == autologin_config_of(username@),
{
    let a = joined("[daemon]\nAutomaticLoginEnable=true\nAutomaticLogin=", username);
    joined(a.as_str(), "\n\n[security]\n\n[xdmcp]\n\n[chooser]\n\n[debug]\n")
}

/// The local /24 of an IPv4 address: its first three dot-separated parts,
/// as written, then `.0/24`; only when it has four parts that all read as
/// bytes (e.g. 192.168.1.111 → 192.168.1.0/24).
pub open spec fn lan_subnet_of(ip: Seq<char>) -> Option<Seq<char>> {
    let parts = split_on(ip, '.');
    if parts.len() == 4 && forall|i: int| 0 <= i < 4 ==> parse_unsigned_of(#[trigger] parts[i], 255) is Some {
        Some(parts[0] + "."@ + parts[1] + "."@ + parts[2] + ".0/24"@)
    } else {
        None
    }
}

/// Derive the local /24 from an IPv4 address.
pub fn lan_subnet_from_ip(ip: &str) -> (r: Option<String>)
    ensures
        match r {
            Some(v) => lan_subnet_of(ip@) == Some(v@),
            None => lan_subnet_of(ip@) is None,
        },
{
    let parts = split(&chars_of(ip), '.');
    if parts.len() != 4 {
        return None;
    }
    let mut i: usize = 0;
    while i < 4
        invariant
            i <= 4,
            parts@.len() == 4,
            seqs_of(parts@) == split_on(ip@, '.'),
            forall|j: int| 0 <= j < i ==> parse_unsigned_of(#[trigger] split_on(ip@, '.')[j], 255) is Some,
        decreases 4 - i,
    {
        assert(seqs_of(parts@)[i as int] == parts@[i as int]@);
        if parse_u8(&parts[i]).is_none() {
            return None;
        }
        i = i + 1;
    }
    assert(seqs_of(parts@)[0] == parts@[0]@);
    assert(seqs_of(parts@)[1] == parts@[1]@);
    assert(seqs_of(parts@)[2] == parts@[2]@);
    let mut v = copy_chars(&parts[0]);
    v.push('.');
    extend(&mut v, &parts[1]);
    v.push('.');
    extend(&mut v, &parts[2]);
    extend(&mut v, &chars_of(".0/24"));
    proof {
        reveal_strlit(".");
        assert(v@ =~= parts@[0]@ + "."@ + parts@[1]@ + "."@ + parts@[2]@ + ".0/24"@);
    }
    Some(string_of(&v))
}


/// The firewall managing this host: ufw (Debian/Ubuntu) or firewalld
/// (Fedora/RHEL), whichever is running.
#[derive(Debug, Clone, Copy, PartialEq, Eq, Structural)]
pub enum Firewall {
    Ufw,
    Firewalld,
    /// Neither firewall is running.
    Inactive,
}

/// `firewall-cmd --state` ran, succeeded, and printed `running`.
pub open spec fn firewalld_running(o: Option<CmdOutput>) -> bool {
    match o {
        Some(c) => c.success && trim_of(c.stdout@) == "running"@,
        None => false,
    }
}

/// `ufw status` ran and reports ufw active.
pub open spec fn ufw_active(o: Option<CmdOutput>) -> bool {
    match o {
        Some(c) => has_sub(c.stdout@, "Status: active"@),
        None => false,
    }
}

/// Is firewalld running, by `firewall-cmd --state`?
pub fn is_firewalld_running(o: &Option<CmdOutput>) -> (r: bool)
    ensures
        r == firewalld_running(*o),
{
    match o {
        Some(c) => c.success && is(&trim(&chars_of(c.stdout.as_str())), "running"),
        None => false,
    }
}

/// Is ufw active, by `ufw status`?
pub fn is_ufw_active(o: &Option<CmdOutput>) -> (r: bool)
    ensures
        r == ufw_active(*o),
{
    match o {
        Some(c) => has(&chars_of(c.stdout.as_str()), "Status: active"),
        None => false,
    }
}

/// Which firewall the answers of `firewall-cmd --state` and then `ufw
/// status` show running; firewalld is asked first, since on Fedora ufw can
/// be installed but inactive beside it.
pub open spec fn firewall_of(o: Seq<Option<CmdOutput>>) -> Firewall {
    if firewalld_running(o[0]) {
        Firewall::Firewalld
    } else if ufw_active(o[1]) {
        Firewall::Ufw
    } else {
        Firewall::Inactive
    }
}

impl Firewall {
    /// Pick whichever firewall is actually running. `outputs` holds the
    /// answers of `firewall-cmd --state` and then `ufw status`, as asked.
    pub fn detect(outputs: &Vec<Option<CmdOutput>>) -> (r: Next<Invocation, Firewall>)
        ensures
            outputs@.len() == 0 ==> asks(r, "firewall-cmd"@, seq!["--state"@], RunIn::System),
            outputs@.len() >= 1 && firewalld_running(outputs@[0]) ==> r == Next::<Invocation, Firewall>::Done(
                Firewall::Firewalld,
            ),
            outputs@.len() == 1 && !firewalld_running(outputs@[0]) ==> asks(
                r,
                "ufw"@,
                seq!["status"@],
                RunIn::System,
            ),
            outputs@.len() >= 2 ==> r == Next::<Invocation, Firewall>::Done(firewall_of(outputs@)),
    {
        if outputs.len() == 0 {
            return Next::Probe(run1("firewall-cmd", "--state", RunIn::System));
        }
        if is_firewalld_running(&outputs[0]) {
            return Next::Done(Firewall::Firewalld);
        }
        if outputs.len() == 1 {
            return Next::Probe(run1("ufw", "status", RunIn::System));
        }
        if is_ufw_active(&outputs[1]) {
            Next::Done(Firewall::Ufw)
        } else {
            Next::Done(Firewall::Inactive)
        }
    }
}

/// A firewall command run as root: directly when HydraDesk is root, else
/// through `sudo`.
pub open spec fn elevated(program: Seq<char>, args: Seq<Seq<char>>, is_root: bool) -> (Seq<char>, Seq<Seq<char>>) {
    if is_root {
        (program, args)
    } else {
        ("sudo"@, seq![program] + args)
    }
}

/// Run a firewall CLI, elevating with sudo only when we are not already root.
pub fn fw_run(program: &str, args: &Vec<String>, is_root: bool) -> (r: Invocation)
    ensures
        (r.program@, strs_of(r.args@)) == elevated(program@, strs_of(args@), is_root),
        r.run_in == RunIn::System,
{
    let mut a: Vec<String> = Vec::new();
    if !is_root {
        a.push(program.to_owned());
    }
    let ghost head = strs_of(a@);
    let mut i: usize = 0;
    while i < args.len()
        invariant
            i <= args.len(),
            strs_of(a@) == head + strs_of(args@).take(i as int),
        decreases args.len() - i,
    {
        let t = args[i].as_str().to_owned();
        assert(t@ == strs_of(args@)[i as int]);
        let ghost before = strs_of(a@);
        a.push(t);
        assert(strs_of(a@) =~= before.push(t@));
        assert(strs_of(args@).take(i + 1) =~= strs_of(args@).take(i as int).push(t@));
        i = i + 1;
    }
    assert(strs_of(args@).take(args.len() as int) =~= strs_of(args@));
    let r = Invocation { program: if is_root { program.to_owned() } else { "sudo".to_owned() }, args: a, run_in: RunIn::System };
    assert(strs_of(r.args@) =~= elevated(program@, strs_of(args@), is_root).1);
    r
}

/// The ufw rule: rate-limited RDP from the LAN when its subnet is known.
pub open spec fn ufw_rule(net: Option<Seq<char>>) -> Seq<Seq<char>> {
    match net {
        Some(n) => seq!["limit"@, "from"@, n, "to"@, "any"@, "port"@, "3389"@, "proto"@, "tcp"@],
        None => seq!["limit"@, "3389/tcp"@],
    }
}

/// The firewalld rule: a rate-limited rich rule for the LAN when its subnet
/// is known, else the plain port.
pub open spec fn firewalld_rule(net: Option<Seq<char>>) -> Seq<Seq<char>> {
    match net {
        Some(n) => seq![
            "--permanent"@,
            "--add-rich-rule=rule family=\"ipv4\" source address=\""@ + n
                + "\" port port=\"3389\" protocol=\"tcp\" accept limit value=\"20/m\""@,
        ],
        None => seq!["--permanent"@, "--add-port=3389/tcp"@],
    }
}

/// What is shown before the rule is added.
pub open spec fn rule_announcement(fw: Firewall, net: Option<Seq<char>>) -> Seq<char> {
    match net {
        Some(n) => "  Allowing rate-limited RDP from "@ + n + " only..."@,
        None => if fw == Firewall::Ufw {
            "  Allowing rate-limited RDP on 3389/tcp..."@
        } else {
            "  Allowing RDP on 3389/tcp..."@
        },
    }
}

/// How a firewall command's result ends the work: not at all when it
/// succeeded; with `Failed to execute: <program>` when it could not be run;
/// else with `<tool> <args> failed:` and its trimmed standard error.
pub open spec fn fw_failure(
    tool: Seq<char>,
    args: Seq<Seq<char>>,
    program: Seq<char>,
    o: Option<CmdOutput>,
) -> Option<Seq<char>> {
    match o {
        None => Some("Failed to execute: "@ + program),
        Some(c) => if c.success {
            None
        } else {
            Some(tool + " "@ + join_of(args, " "@) + " failed:\n"@ + trim_of(c.stderr@))
        },
    }
}

/// A step of opening the RDP port in the firewall.
#[derive(Debug, Clone)]
pub enum FwStep {
    /// Show `announce` (if any), then run the command.
    Run { inv: Invocation, announce: Option<String> },
    /// Find the host's LAN address.
    LocalIp,
}

/// A step of opening the RDP port, as plain values.
pub enum FwPlan {
    Run(Seq<char>, Seq<Seq<char>>, Option<Seq<char>>),
    AskIp,
    Finish(Option<Seq<char>>),
}

/// The LAN subnet, once the address has been looked up.
pub open spec fn subnet_of(ip: Option<String>) -> Option<Seq<char>> {
    match ip {
        Some(a) => lan_subnet_of(a@),
        None => None,
    }
}

/// Adding the rule (`rule`) with `tool` at answer `k`, and, for firewalld,
/// reloading at answer `k + 1`.
pub open spec fn add_rule_plan(
    is_root: bool,
    fw: Firewall,
    tool: Seq<char>,
    rule: Seq<Seq<char>>,
    announce: Seq<char>,
    o: Seq<Option<CmdOutput>>,
    k: int,
) -> FwPlan {
    let cmd = elevated(tool, rule, is_root);
    if o.len() <= k {
        FwPlan::Run(cmd.0, cmd.1, Some(announce))
    } else if fw_failure(tool, rule, cmd.0, o[k]) is Some {
        FwPlan::Finish(fw_failure(tool, rule, cmd.0, o[k]))
    } else if fw != Firewall::Firewalld {
        FwPlan::Finish(None)
    } else {
        let reload = elevated(tool, seq!["--reload"@], is_root);
        if o.len() <= k + 1 {
            FwPlan::Run(reload.0, reload.1, None)
        } else {
            FwPlan::Finish(fw_failure(tool, seq!["--reload"@], reload.0, o[k + 1]))
        }
    }
}

/// Allowing RDP through the active firewall, given the answers so far: the
/// firewall's detection; a listing that shows whether 3389 is already
/// allowed (then nothing is added); the LAN address; adding the rule; for
/// firewalld, reloading. The work ends at the first command that fails.
pub open spec fn firewall_plan(is_root: bool, o: Seq<Option<CmdOutput>>, ip: Option<Option<String>>) -> FwPlan {
    if o.len() == 0 {
        FwPlan::Run("firewall-cmd"@, seq!["--state"@], None)
    } else if !firewalld_running(o[0]) && o.len() == 1 {
        FwPlan::Run("ufw"@, seq!["status"@], None)
    } else {
        let fw = if firewalld_running(o[0]) { Firewall::Firewalld } else { firewall_of(o) };
        let base: int = if fw == Firewall::Firewalld { 1 } else { 2 };
        let tool = if fw == Firewall::Ufw { "ufw"@ } else { "firewall-cmd"@ };
        let listing = if fw == Firewall::Ufw { seq!["status"@] } else { seq!["--list-all"@] };
        if fw == Firewall::Inactive {
            FwPlan::Finish(None)
        } else if o.len() <= base {
            FwPlan::Run(tool, listing, None)
        } else if lists_rdp_port_number(o[base]) {
            FwPlan::Finish(None)
        } else {
            match ip {
                None => FwPlan::AskIp,
                Some(a) => {
                    let net = subnet_of(a);
                    let rule = if fw == Firewall::Ufw { ufw_rule(net) } else { firewalld_rule(net) };
                    add_rule_plan(is_root, fw, tool, rule, rule_announcement(fw, net), o, base + 1)
                },
            }
        }
    }
}

/// The tool and rule arguments of a firewall command run as root, directly
/// or through `sudo`.
pub open spec fn unelevated(program: Seq<char>, args: Seq<Seq<char>>, is_root: bool) -> (Seq<char>, Seq<Seq<char>>) {
    if is_root {
        (program, args)
    } else {
        (args[0], args.drop_first())
    }
}

/// The rule that opening the firewall adds (the only command announced) is
/// rate-limited: with ufw it starts with `limit`, and with the LAN subnet `n`
/// known it is `limit from n to any port 3389 proto tcp`; with firewalld and
/// `n` known it is a rich rule for `n` with `limit value="20/m"`.
pub proof fn lemma_rule_is_rate_limited(is_root: bool, o: Seq<Option<CmdOutput>>, ip: Option<Option<String>>)
    ensures
        firewall_plan(is_root, o, ip) matches FwPlan::Run(program, args, Some(_)) ==> {
            let (tool, rule) = unelevated(program, args, is_root);
            let net = match ip {
                Some(Some(a)) => lan_subnet_of(a@),
                _ => None,
            };
            &&& tool == "ufw"@ || tool == "firewall-cmd"@
            &&& tool == "ufw"@ ==> rule.len() >= 1 && rule[0] == "limit"@
            &&& tool == "ufw"@ && net is Some ==> rule == seq![
                "limit"@,
                "from"@,
                net->0,
                "to"@,
                "any"@,
                "port"@,
                "3389"@,
                "proto"@,
                "tcp"@,
            ]
            &&& tool == "firewall-cmd"@ && net is Some ==> rule == seq![
                "--permanent"@,
                "--add-rich-rule=rule family=\"ipv4\" source address=\""@ + net->0
                    + "\" port port=\"3389\" protocol=\"tcp\" accept limit value=\"20/m\""@,
            ]
        },
{
    reveal_strlit("ufw");
    reveal_strlit("firewall-cmd");
    if o.len() > 0 && !(!firewalld_running(o[0]) && o.len() == 1) {
        let fw = if firewalld_running(o[0]) { Firewall::Firewalld } else { firewall_of(o) };
        if fw != Firewall::Inactive {
            match ip {
                Some(a) => {
                    let net = subnet_of(a);
                    let rule = if fw == Firewall::Ufw { ufw_rule(net) } else { firewalld_rule(net) };
                    let tool = if fw == Firewall::Ufw { "ufw"@ } else { "firewall-cmd"@ };
                    let cmd = elevated(tool, rule, is_root);
                    if !is_root {
                        assert((seq![tool] + rule).drop_first() =~= rule);
                        assert((seq![tool] + rule)[0] == tool);
                    }
                    assert(unelevated(cmd.0, cmd.1, is_root) == (tool, rule));
                    match a {
                        Some(x) => assert(net == lan_subnet_of(x@)),
                        None => assert(net is None),
                    }
                    if fw == Firewall::Ufw {
                        assert(rule[0] == "limit"@);
                    }
                },
                None => {},
            }
        }
    }
}

/// A listing that mentions 3389 (the port is already allowed).
pub open spec fn lists_rdp_port_number(o: Option<CmdOutput>) -> bool {
    match o {
        Some(c) => has_sub(c.stdout@, "3389"@),
        None => false,
    }
}

/// Does `r` take the step that `p` describes?
pub open spec fn takes(r: Next<FwStep, Result<(), String>>, p: FwPlan) -> bool {
    match p {
        FwPlan::Run(program, args, announce) => match r {
            Next::Probe(FwStep::Run { inv, announce: a }) => inv.program@ == program && strs_of(inv.args@)
                == args && inv.run_in == RunIn::System && match (a, announce) {
                (Some(x), Some(y)) => x@ == y,
                (None, None) => true,
                _ => false,
            },
            _ => false,
        },
        FwPlan::AskIp => r matches Next::Probe(FwStep::LocalIp),
        FwPlan::Finish(None) => r matches Next::Done(Ok(())),
        FwPlan::Finish(Some(m)) => r matches Next::Done(Err(e)) && e@ == m,
    }
}


fn strings1(a: &str) -> (r: Vec<String>)
    ensures
        strs_of(r@) == seq![a@],
{
    let mut v: Vec<String> = Vec::new();
    v.push(a.to_owned());
    assert(strs_of(v@) =~= seq![a@]);
    v
}

fn strings2(a: &str, b: &str) -> (r: Vec<String>)
    ensures
        strs_of(r@) == seq![a@, b@],
{
    let mut v: Vec<String> = Vec::new();
    v.push(a.to_owned());
    v.push(b.to_owned());
    assert(strs_of(v@) =~= seq![a@, b@]);
    v
}

/// The rule arguments for `fw` and the LAN subnet, if known.
fn rule_args(fw: Firewall, net: &Option<String>) -> (r: Vec<String>)
    requires
        fw != Firewall::Inactive,
    ensures
        strs_of(r@) == if fw == Firewall::Ufw {
            ufw_rule(match net { Some(n) => Some(n@), None => None })
        } else {
            firewalld_rule(match net { Some(n) => Some(n@), None => None })
        },
{
    match net {
        Some(n) => {
            if fw == Firewall::Ufw {
                let mut v: Vec<String> = Vec::new();
                v.push("limit".to_owned());
                v.push("from".to_owned());
                v.push(n.as_str().to_owned());
                v.push("to".to_owned());
                v.push("any".to_owned());
                v.push("port".to_owned());
                v.push("3389".to_owned());
                v.push("proto".to_owned());
                v.push("tcp".to_owned());
                assert(strs_of(v@) =~= ufw_rule(Some(n@)));
                v
            } else {
                let a = joined("--add-rich-rule=rule family=\"ipv4\" source address=\"", n.as_str());
                let b = joined(a.as_str(), "\" port port=\"3389\" protocol=\"tcp\" accept limit value=\"20/m\"");
                strings2("--permanent", b.as_str())
            }
        },
        None => {
            if fw == Firewall::Ufw {
                strings2("limit", "3389/tcp")
            } else {
                strings2("--permanent", "--add-port=3389/tcp")
            }
        },
    }
}

/// The announcement shown before the rule is added.
fn announcement(fw: Firewall, net: &Option<String>) -> (r: String)
    ensures
        r@ == rule_announcement(fw, match net { Some(n) => Some(n@), None => None }),
{
    match net {
        Some(n) => {
            let a = joined("  Allowing rate-limited RDP from ", n.as_str());
            joined(a.as_str(), " only...")
        },
        None => if fw == Firewall::Ufw {
            "  Allowing rate-limited RDP on 3389/tcp...".to_owned()
        } else {
            "  Allowing RDP on 3389/tcp...".to_owned()
        },
    }
}

/// The error that ends the work after a firewall command, if any.
fn failure(tool: &str, args: &Vec<String>, program: &str, o: &Option<CmdOutput>) -> (r: Option<String>)
    ensures
        match r {
            Some(m) => fw_failure(tool@, strs_of(args@), program@, *o) == Some(m@),
            None => fw_failure(tool@, strs_of(args@), program@, *o) is None,
        },
{
    match o {
        None => Some(joined("Failed to execute: ", program)),
        Some(c) => if c.success {
            None
        } else {
            let mut words: Vec<Vec<char>> = Vec::new();
            let mut i: usize = 0;
            while i < args.len()
                invariant
                    i <= args.len(),
                    seqs_of(words@) == strs_of(args@).take(i as int),
                decreases args.len() - i,
            {
                let ghost before = seqs_of(words@);
                let w = chars_of(args[i].as_str());
                assert(w@ == strs_of(args@)[i as int]);
                words.push(w);
                assert(seqs_of(words@) =~= before.push(w@));
                assert(strs_of(args@).take(i + 1) =~= strs_of(args@).take(i as int).push(w@));
                i = i + 1;
            }
            assert(strs_of(args@).take(args.len() as int) =~= strs_of(args@));
            let mut v = chars_of(tool);
            v.push(' ');
            extend(&mut v, &crate::text::join(&words, &chars_of(" ")));
            extend(&mut v, &chars_of(" failed:\n"));
            extend(&mut v, &trim(&chars_of(c.stderr.as_str())));
            proof {
                reveal_strlit(" ");
            }
            assert(v@ =~= tool@ + " "@ + join_of(strs_of(args@), " "@) + " failed:\n"@ + trim_of(c.stderr@));
            Some(string_of(&v))
        },
    }
}

/// Does the listing mention 3389?
fn already_allowed(o: &Option<CmdOutput>) -> (r: bool)
    ensures
        r == lists_rdp_port_number(*o),
{
    match o {
        Some(c) => has(&chars_of(c.stdout.as_str()), "3389"),
        None => false,
    }
}

/// Allow RDP through the active firewall — scoped to the local subnet and
/// rate-limited to blunt brute-force attempts. No-op if no firewall is
/// active or 3389 is already allowed. `outputs` holds the answers of the
/// commands run so far, `local_ip` the LAN address once looked up.
pub fn open_firewall_port(is_root: bool, outputs: &Vec<Option<CmdOutput>>, local_ip: &Option<Option<String>>) -> (r:
    Next<FwStep, Result<(), String>>)
    ensures
        takes(r, firewall_plan(is_root, outputs@, *local_ip)),
        r matches Next::Probe(FwStep::Run { inv, announce: Some(_) }) ==> {
            let (tool, rule) = unelevated(inv.program@, strs_of(inv.args@), is_root);
            &&& tool == "ufw"@ ==> rule.len() >= 1 && rule[0] == "limit"@
            &&& tool == "ufw"@ && (*local_ip matches Some(Some(a)) && lan_subnet_of(a@) is Some) ==> rule == seq![
                "limit"@,
                "from"@,
                lan_subnet_of(local_ip->0->0@)->0,
                "to"@,
                "any"@,
                "port"@,
                "3389"@,
                "proto"@,
                "tcp"@,
            ]
        },
{
    proof {
        lemma_rule_is_rate_limited(is_root, outputs@, *local_ip);
    }
    let o = outputs;
    if o.len() == 0 {
        let inv = run1("firewall-cmd", "--state", RunIn::System);
        return Next::Probe(FwStep::Run { inv, announce: None });
    }
    let fd = is_firewalld_running(&o[0]);
    if !fd && o.len() == 1 {
        let inv = run1("ufw", "status", RunIn::System);
        return Next::Probe(FwStep::Run { inv, announce: None });
    }
    let fw = if fd {
        Firewall::Firewalld
    } else if is_ufw_active(&o[1]) {
        Firewall::Ufw
    } else {
        Firewall::Inactive
    };
    if fw == Firewall::Inactive {
        return Next::Done(Ok(()));
    }
    let base: usize = if fw == Firewall::Firewalld { 1 } else { 2 };
    let tool: &str = if fw == Firewall::Ufw { "ufw" } else { "firewall-cmd" };
    if o.len() <= base {
        let inv = if fw == Firewall::Ufw {
            run1(tool, "status", RunIn::System)
        } else {
            run1(tool, "--list-all", RunIn::System)
        };
        return Next::Probe(FwStep::Run { inv, announce: None });
    }
    if already_allowed(&o[base]) {
        return Next::Done(Ok(()));
    }
    let net = match local_ip {
        None => return Next::Probe(FwStep::LocalIp),
        Some(Some(a)) => lan_subnet_from_ip(a.as_str()),
        Some(None) => None,
    };
    let rule = rule_args(fw, &net);
    let cmd = fw_run(tool, &rule, is_root);
    if o.len() <= base + 1 {
        let announce = announcement(fw, &net);
        return Next::Probe(FwStep::Run { inv: cmd, announce: Some(announce) });
    }
    match failure(tool, &rule, cmd.program.as_str(), &o[base + 1]) {
        Some(m) => return Next::Done(Err(m)),
        None => {},
    }
    if fw != Firewall::Firewalld {
        return Next::Done(Ok(()));
    }
    let reload_args = strings1("--reload");
    let reload = fw_run(tool, &reload_args, is_root);
    if o.len() <= base + 2 {
        return Next::Probe(FwStep::Run { inv: reload, announce: None });
    }
    match failure(tool, &reload_args, reload.program.as_str(), &o[base + 2]) {
        Some(m) => Next::Done(Err(m)),
        None => Next::Done(Ok(())),
    }
}


/// The text of each literal in `v`.
pub open spec fn lits(v: Seq<&str>) -> Seq<Seq<char>> {
    Seq::new(v.len(), |i: int| v[i]@)
}

/// The command `program` with the literal arguments `args`.
pub fn run_list(program: &str, args: Vec<&str>, run_in: RunIn) -> (r: Invocation)
    ensures
        runs(r, program@, lits(args@), run_in),
{
    let mut a: Vec<String> = Vec::new();
    let mut i: usize = 0;
    while i < args.len()
        invariant
            i <= args@.len(),
            strs_of(a@) == lits(args@).take(i as int),
        decreases args@.len() - i,
    {
        let ghost before = strs_of(a@);
        let t = args[i].to_owned();
        a.push(t);
        assert(strs_of(a@) =~= before.push(t@));
        assert(lits(args@).take(i + 1) =~= lits(args@).take(i as int).push(t@));
        i = i + 1;
    }
    assert(lits(args@).take(args@.len() as int) =~= lits(args@));
    Invocation { program: program.to_owned(), args: a, run_in }
}

/// The steps that stop idle blanking and locking in the session: idle never
/// locks the screen mid-view (`idle-delay 0` means never idle), the screen
/// stays lockable only when auto-lock is configured, and with a session it
/// is unlocked. The results of these commands are not used.
pub open spec fn screen_lock_steps(session: Option<SessionInfo>, lock_enabled: bool) -> Seq<StepView> {
    seq![
        run_ignored(
            "gsettings"@,
            seq!["set"@, "org.gnome.desktop.screensaver"@, "lock-enabled"@, if lock_enabled { "true"@ } else { "false"@ }],
            RunIn::Session,
        ),
        run_ignored("gsettings"@, seq!["set"@, "org.gnome.desktop.screensaver"@, "idle-activation-enabled"@, "false"@], RunIn::Session),
        run_ignored("gsettings"@, seq!["set"@, "org.gnome.desktop.session"@, "idle-delay"@, "0"@], RunIn::Session),
    ] + match session {
        Some(s) => seq![run_ignored("loginctl"@, seq!["unlock-session"@, s.session_id@], RunIn::System)],
        None => Seq::empty(),
    }
}

/// The steps of `screen_lock_steps`.
pub fn disable_screen_lock(session: &Option<SessionInfo>, lock_enabled: bool) -> (r: Vec<Step>)
    ensures
        steps_of(r@) == screen_lock_steps(*session, lock_enabled),
{
    let lock_val = if lock_enabled { "true" } else { "false" };
    let mut r: Vec<Step> = Vec::new();
    push_step(&mut r, Step::Run {
        inv: run4("gsettings", "set", "org.gnome.desktop.screensaver", "lock-enabled", lock_val, RunIn::Session),
        check: Check::Ignore,
    });
    push_step(&mut r, Step::Run {
        inv: run4("gsettings", "set", "org.gnome.desktop.screensaver", "idle-activation-enabled", "false", RunIn::Session),
        check: Check::Ignore,
    });
    push_step(&mut r, Step::Run {
        inv: run4("gsettings", "set", "org.gnome.desktop.session", "idle-delay", "0", RunIn::Session),
        check: Check::Ignore,
    });
    match session {
        Some(s) => push_step(&mut r, Step::Run {
            inv: run2("loginctl", "unlock-session", s.session_id.as_str(), RunIn::System),
            check: Check::Ignore,
        }),
        None => {},
    }
    assert(steps_of(r@) =~= screen_lock_steps(*session, lock_enabled));
    r
}

/// The gdbus call that turns the GNOME screensaver (the lock screen) on or off.
pub open spec fn screensaver_call(on: bool) -> Seq<Seq<char>> {
    seq![
        "call"@,
        "--session"@,
        "-d"@,
        "org.gnome.ScreenSaver"@,
        "-o"@,
        "/org/gnome/ScreenSaver"@,
        "-m"@,
        "org.gnome.ScreenSaver.SetActive"@,
        if on { "true"@ } else { "false"@ },
    ]
}

fn screensaver(on: bool) -> (r: Invocation)
    ensures
        runs(r, "gdbus"@, screensaver_call(on), RunIn::Session),
{
    let v = vec![
        "call",
        "--session",
        "-d",
        "org.gnome.ScreenSaver",
        "-o",
        "/org/gnome/ScreenSaver",
        "-m",
        "org.gnome.ScreenSaver.SetActive",
        if on { "true" } else { "false" },
    ];
    let r = run_list("gdbus", v, RunIn::Session);
    assert(lits(v@) =~= screensaver_call(on));
    r
}

/// The command ran and succeeded.
pub open spec fn succeeded(o: Option<CmdOutput>) -> bool {
    match o {
        Some(c) => c.success,
        None => false,
    }
}

/// Lock the active graphical session now (`hydradesk lock`): make the session
/// lockable, then `loginctl lock-session`; only if that fails (or there is
/// no session) ask the screensaver over D-Bus. `outputs` holds the answers
/// of the commands run so far.
pub fn lock_session(session: &Option<SessionInfo>, outputs: &Vec<Option<CmdOutput>>) -> (r: Next<Invocation, ()>)
    ensures
        outputs@.len() == 0 ==> asks(
            r,
            "gsettings"@,
            seq!["set"@, "org.gnome.desktop.screensaver"@, "lock-enabled"@, "true"@],
            RunIn::Session,
        ),
        ({
            let k: int = if session is Some { 2 } else { 1 };
            &&& session is Some && outputs@.len() == 1 ==> asks(
                r,
                "loginctl"@,
                seq!["lock-session"@, session->0.session_id@],
                RunIn::System,
            )
            &&& session is Some && outputs@.len() >= 2 && succeeded(outputs@[1]) ==> r == Next::<Invocation, ()>::Done(())
            &&& outputs@.len() == k && (session is Some ==> !succeeded(outputs@[1])) ==> asks(
                r,
                "gdbus"@,
                screensaver_call(true),
                RunIn::Session,
            )
            &&& outputs@.len() > k ==> r == Next::<Invocation, ()>::Done(())
        }),
{
    if outputs.len() == 0 {
        return Next::Probe(run4("gsettings", "set", "org.gnome.desktop.screensaver", "lock-enabled", "true", RunIn::Session));
    }
    let mut k: usize = 1;
    match session {
        Some(s) => {
            if outputs.len() == 1 {
                return Next::Probe(run2("loginctl", "lock-session", s.session_id.as_str(), RunIn::System));
            }
            match &outputs[1] {
                Some(c) => if c.success {
                    return Next::Done(());
                },
                None => {},
            }
            k = 2;
        },
        None => {},
    }
    if outputs.len() == k {
        return Next::Probe(screensaver(true));
    }
    Next::Done(())
}

/// Unlock the active graphical session now (`hydradesk unlock`): with a
/// session, `loginctl unlock-session`; then deactivate the screensaver.
pub fn unlock_session(session: &Option<SessionInfo>, outputs: &Vec<Option<CmdOutput>>) -> (r: Next<Invocation, ()>)
    ensures
        ({
            let k: int = if session is Some { 1 } else { 0 };
            &&& session is Some && outputs@.len() == 0 ==> asks(
                r,
                "loginctl"@,
                seq!["unlock-session"@, session->0.session_id@],
                RunIn::System,
            )
            &&& outputs@.len() == k ==> asks(r, "gdbus"@, screensaver_call(false), RunIn::Session)
            &&& outputs@.len() > k ==> r == Next::<Invocation, ()>::Done(())
        }),
{
    let mut k: usize = 0;
    match session {
        Some(s) => {
            if outputs.len() == 0 {
                return Next::Probe(run2("loginctl", "unlock-session", s.session_id.as_str(), RunIn::System));
            }
            k = 1;
        },
        None => {},
    }
    if outputs.len() == k {
        return Next::Probe(screensaver(false));
    }
    Next::Done(())
}


/// The query of whether GNOME Remote Desktop's user service is running.
pub fn service_active_query() -> (r: Invocation)
    ensures
        runs(r, "systemctl"@, seq!["--user"@, "is-active"@, "gnome-remote-desktop.service"@], RunIn::Session),
{
    run3("systemctl", "--user", "is-active", "gnome-remote-desktop.service", RunIn::Session)
}

/// `systemctl --user is-active` ran and printed `active`.
pub open spec fn service_is_active(o: Option<CmdOutput>) -> bool {
    match o {
        Some(c) => trim_of(c.stdout@) == "active"@,
        None => false,
    }
}

/// Is GNOME Remote Desktop's user service active, by the answer of `service_active_query`?
pub fn check_service_active(o: &Option<CmdOutput>) -> (r: bool)
    ensures
        r == service_is_active(*o),
{
    match o {
        Some(c) => is(&trim(&chars_of(c.stdout.as_str())), "active"),
        None => false,
    }
}

/// Whether RDP came up after `setup`.
#[derive(Debug, Clone, Copy)]
pub struct VerifyResult {
    pub service_active: bool,
    pub port_open: bool,
}

/// The result of checking the service (`service`: the answer of
/// `service_active_query`) and the port (`port_open`: `check_port_3389`).
pub fn verify(service: &Option<CmdOutput>, port_open: bool) -> (r: VerifyResult)
    ensures
        r.service_active == service_is_active(*service),
        r.port_open == port_open,
{
    VerifyResult { service_active: check_service_active(service), port_open }
}

/// The `grdctl` found, or `/usr/bin/grdctl`.
pub open spec fn grdctl_or_default_of(path: Option<String>) -> Seq<char> {
    match path {
        Some(p) => p@,
        None => "/usr/bin/grdctl"@,
    }
}

/// The `grdctl` to run.
pub fn grdctl_or_default(path: &Option<String>) -> (r: String)
    ensures
        r@ == grdctl_or_default_of(*path),
{
    match path {
        Some(p) => p.as_str().to_owned(),
        None => "/usr/bin/grdctl".to_owned(),
    }
}

/// `grdctl status` in the session.
pub fn grdctl_status_query(path: &Option<String>) -> (r: Invocation)
    ensures
        runs(r, grdctl_or_default_of(*path), seq!["status"@], RunIn::Session),
{
    let g = grdctl_or_default(path);
    run1(g.as_str(), "status", RunIn::Session)
}

/// The trimmed rest of the first line that, trimmed, begins with `p`.
pub open spec fn first_trimmed_field(ls: Seq<Seq<char>>, p: Seq<char>) -> Option<Seq<char>>
    decreases ls.len(),
{
    if ls.len() == 0 {
        None
    } else {
        match strip_prefix_of(trim_of(ls[0]), p) {
            Some(rest) => Some(trim_of(rest)),
            None => first_trimmed_field(ls.drop_first(), p),
        }
    }
}

/// The RDP server's TLS certificate fingerprint that `grdctl status` prints.
pub open spec fn fingerprint_of(o: Option<CmdOutput>) -> Option<Seq<char>> {
    match o {
        Some(c) => first_trimmed_field(lines_of(c.stdout@), "TLS fingerprint:"@),
        None => None,
    }
}

/// Read the RDP server's TLS certificate fingerprint from the answer of
/// `grdctl_status_query`, so the user can verify it matches what mstsc
/// shows (defends against MITM on connect).
pub fn tls_fingerprint(o: &Option<CmdOutput>) -> (r: Option<String>)
    ensures
        match r {
            Some(f) => fingerprint_of(*o) == Some(f@),
            None => fingerprint_of(*o) is None,
        },
{
    let c = match o {
        Some(c) => c,
        None => return None,
    };
    let ls = lines(&chars_of(c.stdout.as_str()));
    let p = chars_of("TLS fingerprint:");
    let ghost all = seqs_of(ls@);
    let mut i: usize = 0;
    assert(all.skip(0) =~= all);
    while i < ls.len()
        invariant
            i <= ls.len(),
            all == seqs_of(ls@),
            all == lines_of(c.stdout@),
            p@ == "TLS fingerprint:"@,
            fingerprint_of(*o) == first_trimmed_field(all.skip(i as int), p@),
        decreases ls.len() - i,
    {
        assert(all.skip(i as int)[0] == ls@[i as int]@);
        assert(all.skip(i as int).drop_first() =~= all.skip(i + 1));
        match strip_prefix(&trim(&ls[i]), &p) {
            Some(rest) => return Some(string_of(&trim(&rest))),
            None => {},
        }
        i = i + 1;
    }
    None
}

/// The D-Bus query of Mutter's current display configuration.
pub open spec fn mutter_call() -> Seq<Seq<char>> {
    seq![
        "call"@,
        "--session"@,
        "-d"@,
        "org.gnome.Mutter.DisplayConfig"@,
        "-o"@,
        "/org/gnome/Mutter/DisplayConfig"@,
        "-m"@,
        "org.gnome.Mutter.DisplayConfig.GetCurrentState"@,
    ]
}

/// Ask Mutter, in the session, for its current display configuration.
pub fn mutter_query() -> (r: Invocation)
    ensures
        runs(r, "gdbus"@, mutter_call(), RunIn::Session),
{
    let v = vec![
        "call",
        "--session",
        "-d",
        "org.gnome.Mutter.DisplayConfig",
        "-o",
        "/org/gnome/Mutter/DisplayConfig",
        "-m",
        "org.gnome.Mutter.DisplayConfig.GetCurrentState",
    ];
    let r = run_list("gdbus", v, RunIn::Session);
    assert(lits(v@) =~= mutter_call());
    r
}

/// Does Mutter have a monitor to capture? An active monitor reports a
/// current mode (`is-current`); `None` when Mutter could not be asked.
pub open spec fn mutter_monitor_of(o: Option<CmdOutput>) -> Option<bool> {
    match o {
        Some(c) => if c.success { Some(has_sub(c.stdout@, "is-current"@)) } else { None },
        None => None,
    }
}

/// Does Mutter currently have a monitor to capture, by the answer of
/// `mutter_query`? `Some(false)` means a headless session with no
/// framebuffer (the classic "connects then black screen").
pub fn mutter_has_monitor(o: &Option<CmdOutput>) -> (r: Option<bool>)
    ensures
        r == mutter_monitor_of(*o),
{
    match o {
        Some(c) => if c.success {
            Some(has(&chars_of(c.stdout.as_str()), "is-current"))
        } else {
            None
        },
        None => None,
    }
}

/// What `setup` reports of the credentials it set.
#[derive(Debug, Clone)]
pub struct RdpConfig {
    pub username: String,
    /// Set only when HydraDesk generated the password, so `setup` can show it
    /// once. Passwords the user supplied themselves are never echoed.
    pub generated_password: Option<String>,
}

impl RdpConfig {
    /// The configuration for `rdp_user`; the password is kept only when it was generated.
    pub fn new(rdp_user: &str, rdp_password: &str, generated: bool) -> (r: RdpConfig)
        ensures
            r.username@ == rdp_user@,
            generated <==> r.generated_password is Some,
            r.generated_password matches Some(p) ==> p@ == rdp_password@,
    {
        RdpConfig {
            username: rdp_user.to_owned(),
            generated_password: if generated { Some(rdp_password.to_owned()) } else { None },
        }
    }
}


#[verifier::external_type_specification]
#[verifier::external_body]
pub struct ExThreadRng(rand::rngs::ThreadRng);

/// Calls `rand::thread_rng`: a handle to the thread-local generator, seeded
/// by the system. Nothing is stated of it.
#[verifier::external_body]
fn thread_rng() -> rand::rngs::ThreadRng {
    rand::thread_rng()
}

/// Calls `Rng::gen_range(0..upper)` on the generator: a random index below
/// `upper` (the range is not empty, on which `gen_range` would panic).
#[verifier::external_body]
fn random_below(rng: &mut rand::rngs::ThreadRng, upper: usize) -> (r: usize)
    requires
        upper > 0,
    ensures
        r < upper,
{
    rng.gen_range(0..upper)
}

/// The characters a generated password is drawn from: no single quote (so it
/// stays shell-safe), and no look-alikes (0/O, 1/l/I).
pub open spec fn password_alphabet() -> Seq<char> {
    "abcdefghijkmnpqrstuvwxyzABCDEFGHJKLMNPQRSTUVWXYZ23456789!@#%&*+=?"@
}

/// The password that twenty draws give: the `i`-th character is the
/// alphabet's character at the `i`-th draw.
pub open spec fn password_of_draws(draws: Seq<usize>) -> Seq<char> {
    Seq::new(20, |i: int| password_alphabet()[draws[i] as int])
}

/// The password that twenty indices into the alphabet spell.
pub fn password_from_draws(draws: &Vec<usize>) -> (r: String)
    requires
        draws@.len() == 20,
        forall|i: int| 0 <= i < 20 ==> draws@[i] < password_alphabet().len(),
    ensures
        r@ == password_of_draws(draws@),
{
    let chars = chars_of("abcdefghijkmnpqrstuvwxyzABCDEFGHJKLMNPQRSTUVWXYZ23456789!@#%&*+=?");
    let mut out: Vec<char> = Vec::new();
    let mut k: usize = 0;
    while k < 20
        invariant
            k <= 20,
            draws@.len() == 20,
            forall|i: int| 0 <= i < 20 ==> draws@[i] < password_alphabet().len(),
            chars@ == password_alphabet(),
            out@ == password_of_draws(draws@).take(k as int),
        decreases 20 - k,
    {
        out.push(chars[draws[k]]);
        assert(out@ =~= password_of_draws(draws@).take(k + 1));
        k = k + 1;
    }
    assert(password_of_draws(draws@).take(20) =~= password_of_draws(draws@));
    string_of(&out)
}

/// A strong random RDP password: twenty independent draws from the
/// generator, each an index below the alphabet's length, spelled out by
/// `password_from_draws`. `draws` are the indices drawn.
pub fn generate_password() -> (r: String)
    ensures
        r@.len() == 20,
        forall|i: int| 0 <= i < 20 ==> password_alphabet().contains(#[trigger] r@[i]),
{
    proof {
        reveal_strlit("abcdefghijkmnpqrstuvwxyzABCDEFGHJKLMNPQRSTUVWXYZ23456789!@#%&*+=?");
    }
    let n: usize = 65;
    assert(password_alphabet().len() == 65);
    let mut rng = thread_rng();
    let mut draws: Vec<usize> = Vec::new();
    while draws.len() < 20
        invariant
            n == 65,
            draws@.len() <= 20,
            forall|i: int| 0 <= i < draws@.len() ==> draws@[i] < 65,
        decreases 20 - draws@.len(),
    {
        let j = random_below(&mut rng, n);
        draws.push(j);
    }
    let r = password_from_draws(&draws);
    assert forall|i: int| 0 <= i < 20 implies password_alphabet().contains(#[trigger] r@[i]) by {
        assert(r@[i] == password_alphabet()[draws@[i] as int]);
    }
    r
}

/// The alphabet has no single quote and none of 0, O, 1, l, I; so a
/// generated password is embedded in the login script as it is, between
/// one pair of quotes.
pub proof fn lemma_generated_password_is_plain(p: Seq<char>)
    requires
        forall|i: int| 0 <= i < p.len() ==> password_alphabet().contains(#[trigger] p[i]),
    ensures
        forall|i: int| 0 <= i < p.len() ==> p[i] != '\'' && p[i] != '0' && p[i] != 'O' && p[i] != '1' && p[i] != 'l' && p[i] != 'I',
        single_quoted(p) == seq!['\''] + p + seq!['\''],
{
    reveal_strlit("abcdefghijkmnpqrstuvwxyzABCDEFGHJKLMNPQRSTUVWXYZ23456789!@#%&*+=?");
    let a = password_alphabet();
    assert forall|c: char| a.contains(c) implies c != '\'' && c != '0' && c != 'O' && c != '1' && c != 'l' && c != 'I' by {
        let j = choose|j: int| 0 <= j < a.len() && a[j] == c;
        assert(0 <= j < 65);
    }
    lemma_escape_plain(p);
}


/// How a line is marked when shown: done, for information, a warning, or a
/// failure.
#[derive(Debug, Clone, Copy, PartialEq, Eq, Structural)]
pub enum Mark {
    Done,
    Info,
    Warn,
    Fail,
}

/// What a command's result means for the work that runs it.
#[derive(Debug, Clone, Copy, PartialEq, Eq, Structural)]
pub enum Check {
    /// The result is not used.
    Ignore,
    /// Storing the RDP credentials must succeed.
    Credentials,
    /// Restarting GNOME Remote Desktop must succeed.
    Service,
}

/// One step of the work HydraDesk plans (installing, applying, repairing or
/// removing): show a line, change a file, run a command, or wait.
#[derive(Debug, Clone)]
pub enum Step {
    /// Show a line.
    Say(String),
    /// Show a line with a mark before it.
    Note(Mark, String),
    /// Create a directory and its parents; on failure end with `context`.
    CreateDir { path: String, context: String },
    /// Write a file; on failure end with `context`.
    Write { path: String, contents: Vec<u8>, context: String },
    /// Set a file's permission bits; on failure end with `context` (or the
    /// system's own error).
    SetMode { path: String, mode: u32, context: Option<String> },
    /// Run a command, and judge its result by `check`.
    Run { inv: Invocation, check: Check },
    /// Wait this many milliseconds.
    Sleep(u64),
    /// Allow RDP through the firewall (`open_firewall_port`); its error ends the work.
    OpenFirewall,
    /// Remove a file, if it is there.
    RemoveFile(String),
    /// Remove a directory and all it holds, if it is there.
    RemoveTree(String),
}

/// A step as plain values.
pub enum StepView {
    Say(Seq<char>),
    Note(Mark, Seq<char>),
    CreateDir(Seq<char>, Seq<char>),
    Write(Seq<char>, Seq<u8>, Seq<char>),
    SetMode(Seq<char>, u32, Option<Seq<char>>),
    Run(Seq<char>, Seq<Seq<char>>, RunIn, Check),
    Sleep(u64),
    OpenFirewall,
    RemoveFile(Seq<char>),
    RemoveTree(Seq<char>),
}

impl View for Step {
    type V = StepView;

    open spec fn view(&self) -> StepView {
        match self {
            Step::Say(t) => StepView::Say(t@),
            Step::Note(m, t) => StepView::Note(*m, t@),
            Step::CreateDir { path, context } => StepView::CreateDir(path@, context@),
            Step::Write { path, contents, context } => StepView::Write(path@, contents@, context@),
            Step::SetMode { path, mode, context } => StepView::SetMode(
                path@,
                *mode,
                match context {
                    Some(c) => Some(c@),
                    None => None,
                },
            ),
            Step::Run { inv, check } => StepView::Run(inv.program@, strs_of(inv.args@), inv.run_in, *check),
            Step::Sleep(ms) => StepView::Sleep(*ms),
            Step::OpenFirewall => StepView::OpenFirewall,
            Step::RemoveFile(p) => StepView::RemoveFile(p@),
            Step::RemoveTree(p) => StepView::RemoveTree(p@),
        }
    }
}

/// The views of a list of steps.
pub open spec fn steps_of(v: Seq<Step>) -> Seq<StepView> {
    Seq::new(v.len(), |i: int| v[i]@)
}

/// A command whose result is not used.
pub open spec fn run_ignored(program: Seq<char>, args: Seq<Seq<char>>, run_in: RunIn) -> StepView {
    StepView::Run(program, args, run_in, Check::Ignore)
}

/// Writing a root-owned file with the given permission bits.
pub open spec fn root_file(path: Seq<char>, contents: Seq<char>, mode: u32) -> Seq<StepView> {
    seq![
        StepView::Write(path, vstd::utf8::encode_utf8(contents), "Failed to write "@ + path),
        StepView::SetMode(path, mode, Some("Failed to chmod "@ + path)),
    ]
}

/// Installing the virtual-display service: the EDID, the keyring script,
/// the display script and its unit, then enabling the unit.
pub open spec fn virtual_display_steps(edid: Seq<u8>) -> Seq<StepView> {
    seq![StepView::CreateDir(SHARE_DIR@, "Failed to create "@ + SHARE_DIR@ + " (run with sudo)"@)]
        + seq![StepView::Write(EDID_PATH@, edid, "Failed to write "@ + EDID_PATH@)]
        + root_file(KEYRING_PY_PATH@, KEYRING_PY@, 0o644)
        + root_file(DISPLAY_INIT_PATH@, DISPLAY_INIT_SH@, 0o755)
        + root_file(DISPLAY_SERVICE_PATH@, DISPLAY_SERVICE_UNIT@, 0o644)
        + seq![
        run_ignored("systemctl"@, seq!["daemon-reload"@], RunIn::System),
        run_ignored("systemctl"@, seq!["enable"@, DISPLAY_SERVICE@], RunIn::System),
        StepView::Note(Mark::Done, "Virtual display service installed (1080p, auto-starts at boot)"@),
    ]
}

/// The steps of `virtual_display_steps`, with the EDID of `edid_1080p`.
pub fn install_virtual_display() -> (r: Vec<Step>)
    ensures
        steps_of(r@) == virtual_display_steps(edid_1080p_spec()),
{
    let e = edid_1080p();
    let mut edid: Vec<u8> = Vec::new();
    let mut i: usize = 0;
    while i < 128
        invariant
            i <= 128,
            e@.len() == 128,
            edid@ == e@.take(i as int),
        decreases 128 - i,
    {
        edid.push(e[i]);
        assert(edid@ =~= e@.take(i + 1));
        i = i + 1;
    }
    assert(e@.take(128) =~= e@);
    let mut r: Vec<Step> = Vec::new();
    push_step(&mut r, Step::CreateDir { path: SHARE_DIR.to_owned(), context: text3("Failed to create ", SHARE_DIR, " (run with sudo)") });
    push_step(&mut r, Step::Write { path: EDID_PATH.to_owned(), contents: edid, context: joined("Failed to write ", EDID_PATH) });
    let ghost head = steps_of(r@);
    push_root_file(&mut r, KEYRING_PY_PATH, KEYRING_PY, 0o644);
    push_root_file(&mut r, DISPLAY_INIT_PATH, DISPLAY_INIT_SH, 0o755);
    push_root_file(&mut r, DISPLAY_SERVICE_PATH, DISPLAY_SERVICE_UNIT, 0o644);
    let ghost mid = steps_of(r@);
    push_step(&mut r, Step::Run { inv: run1("systemctl", "daemon-reload", RunIn::System), check: Check::Ignore });
    push_step(&mut r, Step::Run { inv: run2("systemctl", "enable", DISPLAY_SERVICE, RunIn::System), check: Check::Ignore });
    push_step(&mut r, Step::Note(Mark::Done, "Virtual display service installed (1080p, auto-starts at boot)".to_owned()));
    assert(head =~= seq![StepView::CreateDir(SHARE_DIR@, "Failed to create "@ + SHARE_DIR@ + " (run with sudo)"@)]
        + seq![StepView::Write(EDID_PATH@, edid_1080p_spec(), "Failed to write "@ + EDID_PATH@)]);
    assert(steps_of(r@) =~= virtual_display_steps(edid_1080p_spec()));
    r
}

/// Appends one step.
pub(crate) fn push_step(r: &mut Vec<Step>, s: Step)
    ensures
        steps_of(final(r)@) == steps_of(old(r)@).push(s@),
{
    let ghost sv = s@;
    r.push(s);
    assert(steps_of(r@) =~= steps_of(old(r)@).push(sv));
}

pub(crate) fn text3(a: &str, b: &str, c: &str) -> (r: String)
    ensures
        r@ == a@ + b@ + c@,
{
    let x = joined(a, b);
    joined(x.as_str(), c)
}

pub(crate) fn push_root_file(r: &mut Vec<Step>, path: &str, contents: &str, mode: u32)
    ensures
        steps_of(final(r)@) == steps_of(old(r)@) + root_file(path@, contents@, mode),
{
    let ghost before = steps_of(r@);
    r.push(Step::Write { path: path.to_owned(), contents: contents.as_bytes_vec(), context: joined("Failed to write ", path) });
    r.push(Step::SetMode { path: path.to_owned(), mode, context: Some(joined("Failed to chmod ", path)) });
    assert(steps_of(r@) =~= before + root_file(path@, contents@, mode));
}

} // verus!
