//! The startup plan: the groups of commands that configure the compositor
//! and bring up the session's services, in the order they run.
use vstd::prelude::*;

use crate::command::{CommandGroup, CommandSpec, ExecutionMode, Task};

verus! {

/// The decimal digit character for `d`, which is below ten.
pub open spec fn digit_char(d: nat) -> char {
    ((d + 48) as u8) as char
}

/// The decimal notation of `n`: no sign, no leading zeros.
pub open spec fn decimal_spec(n: nat) -> Seq<char>
    decreases n,
{
    if n < 10 {
        seq![digit_char(n)]
    } else {
        decimal_spec(n / 10).push(digit_char(n % 10))
    }
}

/// Relies on `ToString` for `u64`, through its `Display` impl: the number in
/// decimal, with no sign and no padding.
#[verifier::external_body]
fn decimal(n: u64) -> (r: String)
    ensures
        r@ == decimal_spec(n as nat),
{
    n.to_string()
}

/// The view of a list of argument vectors.
pub open spec fn lines_view(v: Seq<Vec<String>>) -> Seq<Seq<Seq<char>>> {
    v.map_values(|l: Vec<String>| l@.map_values(|s: String| s@))
}

/// Owned copies of the given words, in order.
pub fn words(parts: &[&str]) -> (r: Vec<String>)
    ensures
        r@.map_values(|s: String| s@) == parts@.map_values(|p: &str| p@),
{
    let mut out: Vec<String> = Vec::new();
    let mut i: usize = 0;
    while i < parts.len()
        invariant
            i <= parts@.len(),
            out@.len() == i,
            out@.map_values(|s: String| s@) == parts@.take(i as int).map_values(|p: &str| p@),
        decreases parts@.len() - i,
    {
        let ghost old_out = out@;
        assert(forall|k: int| 0 <= k < i ==> old_out[k]@ == parts@[k]@) by {
            assert forall|k: int| 0 <= k < i implies old_out[k]@ == parts@[k]@ by {
                assert(old_out.map_values(|s: String| s@)[k] == parts@.take(i as int).map_values(|p: &str| p@)[k]);
            }
        }
        let w = String::from_str(parts[i]);
        assert(w@ == parts@[i as int]@);
        out.push(w);
        assert(forall|k: int| 0 <= k < i ==> out@[k] == old_out[k]);
        assert(out@.map_values(|s: String| s@) =~= parts@.take(i + 1).map_values(|p: &str| p@));
        i = i + 1;
    }
    assert(parts@.take(parts@.len() as int) =~= parts@);
    out
}

/// The tag with one-based index `i` is bit `i - 1`.
pub open spec fn tag_mask_spec(i: nat) -> nat {
    vstd::arithmetic::power2::pow2((i - 1) as nat)
}

/// The mask that selects every tag.
pub open spec fn all_tags_spec() -> nat {
    0xffff_ffff
}

/// The bit of the tag with one-based index `index`.
pub fn tag_mask(index: u32) -> (r: u64)
    requires
        1 <= index <= 32,
    ensures
        r == tag_mask_spec(index as nat),
{
    proof {
        vstd::arithmetic::power2::lemma2_to64();
        vstd::arithmetic::power2::lemma_pow2(((index - 1) as nat));
    }
    assert((1u64 << (index - 1) as u64) == vstd::arithmetic::power2::pow2((index - 1) as nat)) by {
        vstd::bits::lemma_u64_shl_is_mul(1, (index - 1) as u64);
        vstd::arithmetic::power2::lemma_pow2((index - 1) as nat);
        vstd::arithmetic::power::lemma_pow_positive(2, (index - 1) as nat);
    }
    1u64 << (index - 1) as u64
}

/// The modifiers of the `k`-th binding of a tag.
pub open spec fn tag_modifiers(k: int) -> Seq<char> {
    if k == 0 {
        "Super"@
    } else if k == 1 {
        "Super+Shift"@
    } else if k == 2 {
        "Super+Control"@
    } else {
        "Super+Shift+Control"@
    }
}

/// The compositor action of the `k`-th binding of a tag.
pub open spec fn tag_action(k: int) -> Seq<char> {
    if k == 0 {
        "set-focused-tags"@
    } else if k == 1 {
        "set-view-tags"@
    } else if k == 2 {
        "toggle-focused-tags"@
    } else {
        "toggle-view-tags"@
    }
}

/// A key binding of `key` with `modifiers` to `action` on the tags `mask`.
pub open spec fn binding_line(modifiers: Seq<char>, key: Seq<char>, action: Seq<char>, mask: nat) -> Seq<
    Seq<char>,
> {
    seq!["map"@, "normal"@, modifiers, key, action, decimal_spec(mask)]
}

/// The four bindings of the tag with index `i`: its number key under four
/// sets of modifiers, to focus, tag, toggle focus and toggle tag.
pub open spec fn tag_lines(i: nat) -> Seq<Seq<Seq<char>>> {
    Seq::new(4, |k: int| binding_line(tag_modifiers(k), decimal_spec(i), tag_action(k), tag_mask_spec(i)))
}

/// The bindings of key `0` that focus and tag every tag at once.
pub open spec fn all_tags_lines() -> Seq<Seq<Seq<char>>> {
    seq![
        binding_line("Super"@, "0"@, "set-focused-tags"@, all_tags_spec()),
        binding_line("Super+Shift"@, "0"@, "set-view-tags"@, all_tags_spec()),
    ]
}

fn binding(modifiers: &str, key: &String, action: &str, mask: &String) -> (r: Vec<String>)
    ensures
        r@.map_values(|s: String| s@) == seq!["map"@, "normal"@, modifiers@, key@, action@, mask@],
{
    let mut r: Vec<String> = Vec::new();
    r.push(String::from_str("map"));
    r.push(String::from_str("normal"));
    r.push(String::from_str(modifiers));
    r.push(key.clone());
    r.push(String::from_str(action));
    r.push(mask.clone());
    assert(r@.map_values(|s: String| s@) =~= seq!["map"@, "normal"@, modifiers@, key@, action@, mask@]);
    r
}

/// The compositor commands that bind the number key of tag `index`.
pub fn tag_commands(index: u32) -> (r: Vec<Vec<String>>)
    requires
        1 <= index <= 9,
    ensures
        lines_view(r@) == tag_lines(index as nat),
{
    let key = decimal(index as u64);
    let mask = decimal(tag_mask(index));
    let mut r: Vec<Vec<String>> = Vec::new();
    r.push(binding("Super", &key, "set-focused-tags", &mask));
    r.push(binding("Super+Shift", &key, "set-view-tags", &mask));
    r.push(binding("Super+Control", &key, "toggle-focused-tags", &mask));
    r.push(binding("Super+Shift+Control", &key, "toggle-view-tags", &mask));
    assert(lines_view(r@) =~= tag_lines(index as nat));
    r
}

/// The compositor commands that bind key `0` to every tag.
pub fn all_tags_commands() -> (r: Vec<Vec<String>>)
    ensures
        lines_view(r@) == all_tags_lines(),
{
    let key = String::from_str("0");
    let mask = decimal(0xffff_ffff);
    let mut r: Vec<Vec<String>> = Vec::new();
    r.push(binding("Super", &key, "set-focused-tags", &mask));
    r.push(binding("Super+Shift", &key, "set-view-tags", &mask));
    assert(lines_view(r@) =~= all_tags_lines());
    r
}

/// The task runs `binary` with `args` in `mode`.
pub open spec fn is_dispatch(t: Task, binary: Seq<char>, args: Seq<Seq<char>>, mode: ExecutionMode) -> bool {
    match t {
        Task::Dispatch(c, m) => c@.binary == binary && c@.args == args && m == mode,
        Task::Restart(_) => false,
    }
}

/// The task restarts `binary` with `args`.
pub open spec fn is_restart_of(t: Task, binary: Seq<char>, args: Seq<Seq<char>>) -> bool {
    match t {
        Task::Restart(c) => c@.binary == binary && c@.args == args,
        Task::Dispatch(_, _) => false,
    }
}

/// Each line becomes one compositor-control command of the group, awaited
/// to its exit.
pub open spec fn is_control_group(g: CommandGroup, lines: Seq<Seq<Seq<char>>>) -> bool {
    &&& g.tasks@.len() == lines.len()
    &&& forall|k: int|
        0 <= k < lines.len() ==> is_dispatch(
            #[trigger] g.tasks@[k],
            "riverctl"@,
            lines[k],
            ExecutionMode::WaitForExit,
        )
}

/// A group of compositor-control commands, one for each argument vector.
pub fn control_group(lines: Vec<Vec<String>>) -> (r: CommandGroup)
    ensures
        is_control_group(r, lines_view(lines@)),
{
    let ghost orig = lines@;
    let mut tasks: Vec<Task> = Vec::new();
    let mut rest = lines;
    while rest.len() > 0
        invariant
            tasks@.len() + rest@.len() == orig.len(),
            rest@ == orig.subrange(tasks@.len() as int, orig.len() as int),
            forall|k: int|
                0 <= k < tasks@.len() ==> is_dispatch(
                    #[trigger] tasks@[k],
                    "riverctl"@,
                    lines_view(orig)[k],
                    ExecutionMode::WaitForExit,
                ),
        decreases rest@.len(),
    {
        let ghost d = tasks@.len() as int;
        let args = rest.remove(0);
        assert(args == orig[d]);
        assert(rest@ =~= orig.subrange(d + 1, orig.len() as int));
        tasks.push(Task::Dispatch(CommandSpec::new("riverctl", args), ExecutionMode::WaitForExit));
    }
    CommandGroup { tasks }
}

/// An upper-case hexadecimal digit for `d`, which is below sixteen.
pub open spec fn hex_digit(d: nat) -> char {
    if d < 10 {
        ((d + 48) as u8) as char
    } else {
        ((d + 55) as u8) as char
    }
}

/// A colour channel as two upper-case hexadecimal digits.
pub open spec fn hex_byte(b: u8) -> Seq<char> {
    seq![hex_digit(b as nat / 16), hex_digit(b as nat % 16)]
}

/// A colour as six upper-case hexadecimal digits: red, green, blue.
pub open spec fn hex_colour(c: (u8, u8, u8)) -> Seq<char> {
    hex_byte(c.0) + hex_byte(c.1) + hex_byte(c.2)
}

/// Relies on catppuccin's `Flavour::base` for Macchiato: the colour (36, 39, 58).
#[verifier::external_body]
fn macchiato_base() -> (r: (u8, u8, u8))
    ensures
        r == (36u8, 39u8, 58u8),
{
    let c = catppuccin::Flavour::Macchiato.base();
    (c.0, c.1, c.2)
}

/// Relies on catppuccin's `Flavour::flamingo` for Macchiato: the colour (240, 198, 198).
#[verifier::external_body]
fn macchiato_flamingo() -> (r: (u8, u8, u8))
    ensures
        r == (240u8, 198u8, 198u8),
{
    let c = catppuccin::Flavour::Macchiato.flamingo();
    (c.0, c.1, c.2)
}

/// Relies on catppuccin's `Flavour::red` for Macchiato: the colour (237, 135, 150).
#[verifier::external_body]
fn macchiato_red() -> (r: (u8, u8, u8))
    ensures
        r == (237u8, 135u8, 150u8),
{
    let c = catppuccin::Flavour::Macchiato.red();
    (c.0, c.1, c.2)
}

/// Relies on catppuccin's `Colour::hex`: two upper-case hexadecimal digits for
/// each channel, red first.
#[verifier::external_body]
fn colour_hex(c: (u8, u8, u8)) -> (r: String)
    ensures
        r@ == hex_colour(c),
{
    catppuccin::Colour(c.0, c.1, c.2).hex()
}

/// A colour as the compositor reads it: `0x` and six hexadecimal digits.
pub open spec fn colour_arg(c: (u8, u8, u8)) -> Seq<char> {
    "0x"@ + hex_colour(c)
}

/// The compositor's theme: Macchiato's base for the background and unfocused
/// borders, flamingo for the focused border, red for the urgent one.
pub open spec fn theme_lines() -> Seq<Seq<Seq<char>>> {
    seq![
        seq!["background-color"@, colour_arg((36u8, 39u8, 58u8))],
        seq!["border-color-focused"@, colour_arg((240u8, 198u8, 198u8))],
        seq!["border-color-unfocused"@, colour_arg((36u8, 39u8, 58u8))],
        seq!["border-color-urgent"@, colour_arg((237u8, 135u8, 150u8))],
        seq!["border-width"@, "5"@],
    ]
}

fn setting(key: &str, value: String) -> (r: Vec<String>)
    ensures
        r@.map_values(|s: String| s@) == seq![key@, value@],
{
    let mut r: Vec<String> = Vec::new();
    r.push(String::from_str(key));
    r.push(value);
    assert(r@.map_values(|s: String| s@) =~= seq![key@, value@]);
    r
}

fn colour_value(c: (u8, u8, u8)) -> (r: String)
    ensures
        r@ == colour_arg(c),
{
    String::from_str("0x").concat(colour_hex(c).as_str())
}

/// The compositor commands that set the theme.
pub fn theme_commands() -> (r: Vec<Vec<String>>)
    ensures
        lines_view(r@) == theme_lines(),
{
    let base = macchiato_base();
    let mut r: Vec<Vec<String>> = Vec::new();
    r.push(setting("background-color", colour_value(base)));
    r.push(setting("border-color-focused", colour_value(macchiato_flamingo())));
    r.push(setting("border-color-unfocused", colour_value(base)));
    r.push(setting("border-color-urgent", colour_value(macchiato_red())));
    r.push(setting("border-width", String::from_str("5")));
    assert(lines_view(r@) =~= theme_lines());
    r
}

/// The services restarted together at startup, each with its arguments.
pub open spec fn is_restart_group(g: CommandGroup) -> bool {
    &&& g.tasks@.len() == 4
    &&& is_restart_of(g.tasks@[0], "waybar"@, seq![])
    &&& is_restart_of(g.tasks@[1], "v2ray"@, seq!["run"@, "-c"@, "~/vmess-new.json"@])
    &&& is_restart_of(g.tasks@[2], "arti"@, seq!["proxy"@])
    &&& is_restart_of(
        g.tasks@[3],
        "wl-paste"@,
        seq!["-t"@, "text"@, "--watch"@, "clipman"@, "store"@],
    )
}

/// The steps that need the services up: the session environment is exported
/// to the activation bus, and the wallpaper is set.
pub open spec fn is_environment_group(g: CommandGroup) -> bool {
    &&& g.tasks@.len() == 2
    &&& is_dispatch(
        g.tasks@[0],
        "dbus-update-activation-environment"@,
        seq![
            "SEATD_SOCK"@,
            "DISPLAY"@,
            "WAYLAND_DISPLAY"@,
            "XDG_SESSION_TYPE"@,
            "XDG_CURRENT_DESKTOP"@,
        ],
        ExecutionMode::Detached,
    )
    &&& is_dispatch(
        g.tasks@[1],
        "swaybg"@,
        seq!["-i"@, "/home/a/pretty_12.png"@],
        ExecutionMode::Detached,
    )
}

/// The compositor's layout generator, launched last.
pub open spec fn is_layout_group(g: CommandGroup) -> bool {
    &&& g.tasks@.len() == 1
    &&& is_dispatch(
        g.tasks@[0],
        "rivertile"@,
        seq!["-view-padding"@, "05"@, "-outer-padding"@, "05"@],
        ExecutionMode::Detached,
    )
}

/// The services, restarted concurrently.
pub fn restart_group() -> (r: CommandGroup)
    ensures
        is_restart_group(r),
{
    let mut tasks: Vec<Task> = Vec::new();
    let none: Vec<String> = Vec::new();
    assert(none@.map_values(|s: String| s@) =~= Seq::<Seq<char>>::empty());
    tasks.push(Task::Restart(CommandSpec::new("waybar", none)));
    let v2ray = words(&["run", "-c", "~/vmess-new.json"]);
    assert(v2ray@.map_values(|s: String| s@) =~= seq!["run"@, "-c"@, "~/vmess-new.json"@]);
    tasks.push(Task::Restart(CommandSpec::new("v2ray", v2ray)));
    let arti = words(&["proxy"]);
    assert(arti@.map_values(|s: String| s@) =~= seq!["proxy"@]);
    tasks.push(Task::Restart(CommandSpec::new("arti", arti)));
    let paste = words(&["-t", "text", "--watch", "clipman", "store"]);
    assert(paste@.map_values(|s: String| s@) =~= seq!["-t"@, "text"@, "--watch"@, "clipman"@, "store"@]);
    tasks.push(Task::Restart(CommandSpec::new("wl-paste", paste)));
    CommandGroup { tasks }
}

/// The environment export and the wallpaper, both left running detached.
pub fn environment_group() -> (r: CommandGroup)
    ensures
        is_environment_group(r),
{
    let mut tasks: Vec<Task> = Vec::new();
    let vars = words(
        &["SEATD_SOCK", "DISPLAY", "WAYLAND_DISPLAY", "XDG_SESSION_TYPE", "XDG_CURRENT_DESKTOP"],
    );
    assert(vars@.map_values(|s: String| s@) =~= seq![
        "SEATD_SOCK"@,
        "DISPLAY"@,
        "WAYLAND_DISPLAY"@,
        "XDG_SESSION_TYPE"@,
        "XDG_CURRENT_DESKTOP"@,
    ]);
    tasks.push(
        Task::Dispatch(
            CommandSpec::new("dbus-update-activation-environment", vars),
            ExecutionMode::Detached,
        ),
    );
    let wall = words(&["-i", "/home/a/pretty_12.png"]);
    assert(wall@.map_values(|s: String| s@) =~= seq!["-i"@, "/home/a/pretty_12.png"@]);
    tasks.push(Task::Dispatch(CommandSpec::new("swaybg", wall), ExecutionMode::Detached));
    CommandGroup { tasks }
}

/// The layout generator, left running detached.
pub fn layout_group() -> (r: CommandGroup)
    ensures
        is_layout_group(r),
{
    let mut tasks: Vec<Task> = Vec::new();
    let padding = words(&["-view-padding", "05", "-outer-padding", "05"]);
    assert(padding@.map_values(|s: String| s@) =~= seq![
        "-view-padding"@,
        "05"@,
        "-outer-padding"@,
        "05"@,
    ]);
    tasks.push(Task::Dispatch(CommandSpec::new("rivertile", padding), ExecutionMode::Detached));
    CommandGroup { tasks }
}

/// The number of groups of the startup plan.
pub const PLAN_LEN: usize = 14;

/// The startup plan, group by group: the theme and the given compositor
/// settings; the bindings of tags one to nine, one group each; the bindings
/// of every tag; the service restarts; the environment export and the
/// wallpaper; the layout generator. Each group completes before the next.
pub open spec fn is_startup_plan(plan: Seq<CommandGroup>, settings: Seq<Seq<Seq<char>>>) -> bool {
    &&& plan.len() == PLAN_LEN
    &&& is_control_group(plan[0], theme_lines() + settings)
    &&& forall|i: int| 1 <= i <= 9 ==> is_control_group(#[trigger] plan[i], tag_lines(i as nat))
    &&& is_control_group(plan[10], all_tags_lines())
    &&& is_restart_group(plan[11])
    &&& is_environment_group(plan[12])
    &&& is_layout_group(plan[13])
}

/// Builds the startup plan around the given compositor settings, each an
/// argument vector of the compositor's control program.
pub fn startup_plan(settings: Vec<Vec<String>>) -> (r: Vec<CommandGroup>)
    ensures
        is_startup_plan(r@, lines_view(settings@)),
{
    let mut plan: Vec<CommandGroup> = Vec::new();
    let mut config = theme_commands();
    let ghost theme = config@;
    let mut rest = settings;
    config.append(&mut rest);
    assert(lines_view(config@) =~= theme_lines() + lines_view(settings@)) by {
        assert(config@ =~= theme + settings@);
    }
    plan.push(control_group(config));
    let mut i: u32 = 1;
    while i <= 9
        invariant
            1 <= i <= 10,
            plan@.len() == i,
            is_control_group(plan@[0], theme_lines() + lines_view(settings@)),
            forall|k: int| 1 <= k < i ==> is_control_group(#[trigger] plan@[k], tag_lines(k as nat)),
        decreases 10 - i,
    {
        plan.push(control_group(tag_commands(i)));
        i = i + 1;
    }
    plan.push(control_group(all_tags_commands()));
    plan.push(restart_group());
    plan.push(environment_group());
    plan.push(layout_group());
    plan
}

} // verus!
