//! The hub card the door shows before a run is entered: the title, what
//! the door is, how its clock runs, what getting out pays, the actions on
//! the card and the keys inside. Line kinds say how each line is set; the
//! text is fixed here.
use vstd::prelude::*;
use vstd::view::View as _;

use crate::pace;
use crate::state;

verus! {

/// One line of the landing card.
#[derive(Debug, PartialEq, Eq)]
pub enum LandingLine {
    Blank,
    /// A row of the block-letter title.
    Art(&'static str),
    /// The opening line, in the body's own colour.
    Prose(&'static str),
    /// Prose set dim.
    Dim(&'static str),
    /// Small print.
    Fine(&'static str),
    /// A section heading.
    Heading(&'static str),
    /// A term, padded to the given width, and what it means.
    Hint(&'static str, String, usize),
    /// A label, padded to the given width, and its value.
    Stat(&'static str, &'static str, usize),
    /// A marker, the key that takes the action, and what it does.
    Action(&'static str, &'static str, &'static str),
}

/// What a landing line says.
pub enum LandingShown {
    Blank,
    Art(Seq<char>),
    Prose(Seq<char>),
    Dim(Seq<char>),
    Fine(Seq<char>),
    Heading(Seq<char>),
    Hint(Seq<char>, Seq<char>, usize),
    Stat(Seq<char>, Seq<char>, usize),
    Action(Seq<char>, Seq<char>, Seq<char>),
}

pub open spec fn landing_line_shown(line: LandingLine) -> LandingShown {
    match line {
        LandingLine::Blank => LandingShown::Blank,
        LandingLine::Art(t) => LandingShown::Art(t@),
        LandingLine::Prose(t) => LandingShown::Prose(t@),
        LandingLine::Dim(t) => LandingShown::Dim(t@),
        LandingLine::Fine(t) => LandingShown::Fine(t@),
        LandingLine::Heading(t) => LandingShown::Heading(t@),
        LandingLine::Hint(k, t, w) => LandingShown::Hint(k@, t@, w),
        LandingLine::Stat(k, t, w) => LandingShown::Stat(k@, t@, w),
        LandingLine::Action(m, k, t) => LandingShown::Action(m@, k@, t@),
    }
}

/// What a run of landing lines says.
pub open spec fn landing_shown(lines: Seq<LandingLine>) -> Seq<LandingShown> {
    Seq::new(lines.len(), |i: int| landing_line_shown(lines[i]))
}

/// The title, the opening prose, and how the clock runs.
pub open spec fn landing_intro() -> Seq<LandingShown> {
    seq![
        LandingShown::Blank,
        LandingShown::Art("██████╗  █████╗ ██████╗ ██╗  ██╗"@),
        LandingShown::Art("██╔══██╗██╔══██╗██╔══██╗██║ ██╔╝"@),
        LandingShown::Art("██║  ██║███████║██████╔╝█████╔╝ "@),
        LandingShown::Art("██║  ██║██╔══██║██╔══██╗██╔═██╗ "@),
        LandingShown::Art("██████╔╝██║  ██║██║  ██║██║  ██╗"@),
        LandingShown::Art("╚═════╝ ╚═╝  ╚═╝╚═╝  ╚═╝╚═╝  ╚═╝"@),
        LandingShown::Art("██████╗  ██████╗  ██████╗ ███╗   ███╗"@),
        LandingShown::Art("██╔══██╗██╔═══██╗██╔═══██╗████╗ ████║"@),
        LandingShown::Art("██████╔╝██║   ██║██║   ██║██╔████╔██║"@),
        LandingShown::Art("██╔══██╗██║   ██║██║   ██║██║╚██╔╝██║"@),
        LandingShown::Art("██║  ██║╚██████╔╝╚██████╔╝██║ ╚═╝ ██║"@),
        LandingShown::Art("╚═╝  ╚═╝ ╚═════╝  ╚═════╝ ╚═╝     ╚═╝"@),
        LandingShown::Blank,
        LandingShown::Prose("the fire is dead. the room is freezing."@),
        LandingShown::Blank,
        LandingShown::Dim("Light it, and see what the light brings in. Then build a"@),
        LandingShown::Dim("village around it, walk out into the wasteland, and find"@),
        LandingShown::Dim("a way off this rock."@),
        LandingShown::Blank,
        LandingShown::Heading("How it runs here"@),
        LandingShown::Hint("pace"@, "the village runs at a slower pace here"@, 10),
        LandingShown::Hint("time"@, "it grows while you are connected, anywhere on late.sh"@, 10),
    ]
}

/// What getting out pays, and the second pass.
pub open spec fn landing_rewards() -> Seq<LandingShown> {
    seq![
        LandingShown::Blank,
        LandingShown::Heading("Rewards"@),
        LandingShown::Stat("Fly out"@, "15,000 chips, and the ADE badge the first time"@, 15),
        LandingShown::Stat("Fleet beacon"@, "20,000 chips, and the ADB badge the first time"@, 15),
        LandingShown::Fine("  Every run that gets out pays: the ending wipes the save,"@),
        LandingShown::Fine("  so a repeat is the whole arc again, not a shortcut."@),
        LandingShown::Blank,
        LandingShown::Heading("The second pass"@),
        LandingShown::Dim("Flying out once makes you a veteran. Your next map carries"@),
        LandingShown::Dim("the ravaged battleship, a wreck no first run ever sees: clear"@),
        LandingShown::Dim("it, kill the immortal wanderer, take the fleet beacon, and"@),
        LandingShown::Dim("fly out holding it for the second ending."@),
        LandingShown::Blank,
    ]
}

/// The keys inside.
pub open spec fn landing_keys() -> Seq<LandingShown> {
    seq![
        LandingShown::Blank,
        LandingShown::Heading("Once Inside"@),
        LandingShown::Hint("j/k, w/s, arrows"@, "move the cursor; Enter or space picks"@, 18),
        LandingShown::Hint("Tab"@, "switch between the room and outside"@, 18),
        LandingShown::Hint("+/- and </>"@, "move one or ten villagers between jobs"@, 18),
        LandingShown::Hint("wasd / arrows"@, "walk the wasteland, steer the ship"@, 18),
        LandingShown::Hint("Esc"@, "park the trip and step out; time keeps banking"@, 18),
    ]
}

fn push_intro(lines: &mut Vec<LandingLine>)
    ensures
        landing_shown(final(lines)@) == landing_shown(old(lines)@) + landing_intro(),
{
    let ghost before = landing_shown(lines@);
    lines.push(LandingLine::Blank);
    lines.push(LandingLine::Art("██████╗  █████╗ ██████╗ ██╗  ██╗"));
    lines.push(LandingLine::Art("██╔══██╗██╔══██╗██╔══██╗██║ ██╔╝"));
    lines.push(LandingLine::Art("██║  ██║███████║██████╔╝█████╔╝ "));
    lines.push(LandingLine::Art("██║  ██║██╔══██║██╔══██╗██╔═██╗ "));
    lines.push(LandingLine::Art("██████╔╝██║  ██║██║  ██║██║  ██╗"));
    lines.push(LandingLine::Art("╚═════╝ ╚═╝  ╚═╝╚═╝  ╚═╝╚═╝  ╚═╝"));
    lines.push(LandingLine::Art("██████╗  ██████╗  ██████╗ ███╗   ███╗"));
    lines.push(LandingLine::Art("██╔══██╗██╔═══██╗██╔═══██╗████╗ ████║"));
    lines.push(LandingLine::Art("██████╔╝██║   ██║██║   ██║██╔████╔██║"));
    lines.push(LandingLine::Art("██╔══██╗██║   ██║██║   ██║██║╚██╔╝██║"));
    lines.push(LandingLine::Art("██║  ██║╚██████╔╝╚██████╔╝██║ ╚═╝ ██║"));
    lines.push(LandingLine::Art("╚═╝  ╚═╝ ╚═════╝  ╚═════╝ ╚═╝     ╚═╝"));
    lines.push(LandingLine::Blank);
    lines.push(LandingLine::Prose("the fire is dead. the room is freezing."));
    lines.push(LandingLine::Blank);
    lines.push(LandingLine::Dim("Light it, and see what the light brings in. Then build a"));
    lines.push(LandingLine::Dim("village around it, walk out into the wasteland, and find"));
    lines.push(LandingLine::Dim("a way off this rock."));
    lines.push(LandingLine::Blank);
    lines.push(LandingLine::Heading("How it runs here"));
    lines.push(LandingLine::Hint("pace", String::from_str("the village runs at a slower pace here"), 10));
    lines.push(LandingLine::Hint("time", String::from_str("it grows while you are connected, anywhere on late.sh"), 10));
    proof {
        assert(landing_shown(lines@) =~= before + landing_intro());
    }
}

fn push_rewards(lines: &mut Vec<LandingLine>)
    ensures
        landing_shown(final(lines)@) == landing_shown(old(lines)@) + landing_rewards(),
{
    let ghost before = landing_shown(lines@);
    lines.push(LandingLine::Blank);
    lines.push(LandingLine::Heading("Rewards"));
    lines.push(LandingLine::Stat("Fly out", "15,000 chips, and the ADE badge the first time", 15));
    lines.push(LandingLine::Stat("Fleet beacon", "20,000 chips, and the ADB badge the first time", 15));
    lines.push(LandingLine::Fine("  Every run that gets out pays: the ending wipes the save,"));
    lines.push(LandingLine::Fine("  so a repeat is the whole arc again, not a shortcut."));
    lines.push(LandingLine::Blank);
    lines.push(LandingLine::Heading("The second pass"));
    lines.push(LandingLine::Dim("Flying out once makes you a veteran. Your next map carries"));
    lines.push(LandingLine::Dim("the ravaged battleship, a wreck no first run ever sees: clear"));
    lines.push(LandingLine::Dim("it, kill the immortal wanderer, take the fleet beacon, and"));
    lines.push(LandingLine::Dim("fly out holding it for the second ending."));
    lines.push(LandingLine::Blank);
    proof {
        assert(landing_shown(lines@) =~= before + landing_rewards());
    }
}

fn push_keys(lines: &mut Vec<LandingLine>)
    ensures
        landing_shown(final(lines)@) == landing_shown(old(lines)@) + landing_keys(),
{
    let ghost before = landing_shown(lines@);
    lines.push(LandingLine::Blank);
    lines.push(LandingLine::Heading("Once Inside"));
    lines.push(LandingLine::Hint("j/k, w/s, arrows", String::from_str("move the cursor; Enter or space picks"), 18));
    lines.push(LandingLine::Hint("Tab", String::from_str("switch between the room and outside"), 18));
    lines.push(LandingLine::Hint("+/- and </>", String::from_str("move one or ten villagers between jobs"), 18));
    lines.push(LandingLine::Hint("wasd / arrows", String::from_str("walk the wasteland, steer the ship"), 18));
    lines.push(LandingLine::Hint("Esc", String::from_str("park the trip and step out; time keeps banking"), 18));
    proof {
        assert(landing_shown(lines@) =~= before + landing_keys());
    }
}

/// How much village time a day allows, and what a short visit banks.
pub open spec fn landing_allowance() -> Seq<LandingShown> {
    seq![
        LandingShown::Hint(
            "daily"@,
            state::decimal((pace::DAILY_CREDIT_SECS / 3600) as nat) + "h of village time a day, so it lasts weeks"@,
            10,
        ),
        LandingShown::Hint(
            "floor"@,
            "even a short visit banks "@ + state::decimal((pace::DAILY_CREDIT_FLOOR_SECS / 60) as nat)
                + "m once the village stands"@,
            10,
        ),
    ]
}

/// The actions on the card: light the fire or start over; while a start
/// over waits to be confirmed, only the confirmation.
pub open spec fn landing_actions(delete_confirm: bool) -> Seq<LandingShown> {
    if delete_confirm {
        seq![LandingShown::Action("!"@, "d"@, "press again to burn it all down and start over"@)]
    } else {
        seq![
            LandingShown::Action(">"@, "Enter"@, "light the fire"@),
            LandingShown::Action("x"@, "d"@, "start over"@),
        ]
    }
}

/// The whole card, line by line.
pub open spec fn landing_spec(delete_confirm: bool) -> Seq<LandingShown> {
    landing_intro() + landing_allowance() + landing_rewards() + landing_actions(delete_confirm) + landing_keys()
}

fn push_allowance(lines: &mut Vec<LandingLine>)
    ensures
        landing_shown(final(lines)@) == landing_shown(old(lines)@) + landing_allowance(),
{
    let ghost before = landing_shown(lines@);
    let mut daily = String::new();
    state::append_decimal(&mut daily, (pace::DAILY_CREDIT_SECS / 3600) as u64);
    daily.append("h of village time a day, so it lasts weeks");
    lines.push(LandingLine::Hint("daily", daily, 10));
    let mut floor = String::from_str("even a short visit banks ");
    state::append_decimal(&mut floor, (pace::DAILY_CREDIT_FLOOR_SECS / 60) as u64);
    floor.append("m once the village stands");
    lines.push(LandingLine::Hint("floor", floor, 10));
    proof {
        assert(landing_shown(lines@) =~= before + landing_allowance());
    }
}

fn push_actions(lines: &mut Vec<LandingLine>, delete_confirm: bool)
    ensures
        landing_shown(final(lines)@) == landing_shown(old(lines)@) + landing_actions(delete_confirm),
{
    let ghost before = landing_shown(lines@);
    if delete_confirm {
        lines.push(LandingLine::Action("!", "d", "press again to burn it all down and start over"));
    } else {
        lines.push(LandingLine::Action(">", "Enter", "light the fire"));
        lines.push(LandingLine::Action("x", "d", "start over"));
    }
    proof {
        assert(landing_shown(lines@) =~= before + landing_actions(delete_confirm));
    }
}

/// The landing card: the title, what the door is, how its clock runs,
/// what the two endings pay and the second pass, the actions, and the keys
/// inside.
pub fn landing_lines(delete_confirm: bool) -> (lines: Vec<LandingLine>)
    ensures
        landing_shown(lines@) == landing_spec(delete_confirm),
{
    let mut lines: Vec<LandingLine> = Vec::new();
    push_intro(&mut lines);
    push_allowance(&mut lines);
    push_rewards(&mut lines);
    push_actions(&mut lines, delete_confirm);
    push_keys(&mut lines);
    proof {
        assert(landing_shown(lines@) =~= landing_spec(delete_confirm));
    }
    lines
}

} // verus!
