//! What the menu bar shows.

use crate::config::{BotConfig, BotModel, Config};
use crate::number::{
    decimal, is_digit, law_decimal_round_trip, lemma_decimal_is_digits, push_decimal,
};
use crate::status::{BotStatus, StatusModel};
use crate::table::{known, StatusTable};
use vstd::prelude::*;

verus! {

/// The text of a truth value.
pub open spec fn truth(b: bool) -> Seq<char> {
    if b {
        "true"@
    } else {
        "false"@
    }
}

/// The text of a truth value.
fn truth_text(b: bool) -> (r: &'static str)
    ensures
        r@ == truth(b),
{
    if b {
        "true"
    } else {
        "false"
    }
}

/// The part of a fingerprint that goes by a bot's state.
pub open spec fn state_part(enabled: bool, status: StatusModel) -> Seq<char> {
    truth(enabled) + "|"@ + truth(status.running) + "|"@ + truth(status.last_error is Some) + "|"@
        + truth(status.last_daily_error is Some) + "|"@ + decimal(status.message_count as nat)
        + ";"@
}

/// The part of a fingerprint that is for one bot.
pub open spec fn bot_part(bot: BotModel, status: StatusModel) -> Seq<char> {
    bot.id + "|"@ + bot.name + "|"@ + state_part(bot.enabled, status)
}

/// The fingerprint of what the menu shows.
pub open spec fn fingerprint(
    bots: Seq<BotModel>,
    table: Map<Seq<char>, StatusModel>,
) -> Seq<char>
    decreases bots.len(),
{
    if bots.len() == 0 {
        Seq::empty()
    } else {
        fingerprint(bots.drop_last(), table) + bot_part(bots.last(), known(table, bots.last().id))
    }
}

/// The part of a fingerprint that goes by a bot's state.
fn state_text(enabled: bool, status: &BotStatus) -> (r: String)
    ensures
        r@ == state_part(enabled, status@),
{
    let mut out = truth_text(enabled).to_owned();
    out.append("|");
    out.append(truth_text(status.running));
    out.append("|");
    out.append(truth_text(status.last_error.is_some()));
    out.append("|");
    out.append(truth_text(status.last_daily_error.is_some()));
    out.append("|");
    push_decimal(&mut out, status.message_count);
    out.append(";");
    out
}

/// The part of a fingerprint that is for one bot.
fn bot_text(bot: &BotConfig, status: &BotStatus) -> (r: String)
    ensures
        r@ == bot_part(bot@, status@),
{
    let mut out = bot.id.clone();
    out.append("|");
    out.append(bot.name.as_str());
    out.append("|");
    let state = state_text(bot.enabled, status);
    out.append(state.as_str());
    out
}

/// A cheap fingerprint of everything the menu shows, so that it is rebuilt only
/// when something changed: to rebuild it all the time flickers, and can close it
/// while it is open.
pub fn tray_signature(config: &Config, table: &StatusTable) -> (r: String)
    requires
        table.wf(),
    ensures
        r@ == fingerprint(config@.bots, table@),
{
    let mut out = String::new();
    let mut i: usize = 0;
    assert(config@.bots.take(0) =~= Seq::<BotModel>::empty());
    while i < config.bots.len()
        invariant
            i <= config.bots@.len(),
            table.wf(),
            out@ == fingerprint(config@.bots.take(i as int), table@),
        decreases config.bots@.len() - i,
    {
        let bot = &config.bots[i];
        let status = table.status_of(bot.id.as_str());
        proof {
            assert(config@.bots.take(i + 1).drop_last() =~= config@.bots.take(i as int));
            assert(config@.bots.take(i + 1).last() == bot@);
        }
        let part = bot_text(bot, &status);
        out.append(part.as_str());
        i += 1;
    }
    assert(config@.bots.take(i as int) =~= config@.bots);
    out
}

/// The light in front of a bot.
pub open spec fn light(enabled: bool, status: StatusModel) -> Seq<char> {
    if !enabled {
        "⚪"@
    } else if status.has_error() {
        "🔴"@
    } else if status.running {
        "🟢"@
    } else {
        "🟡"@
    }
}

/// The line of a bot in the menu.
pub open spec fn label_of(bot: BotModel, status: StatusModel) -> Seq<char> {
    light(bot.enabled, status) + " "@ + bot.name + "  ·  "@ + decimal(status.message_count as nat)
        + " saved"@
}

/// The light in front of a bot.
fn light_text(enabled: bool, status: &BotStatus) -> (r: &'static str)
    ensures
        r@ == light(enabled, status@),
{
    if !enabled {
        "⚪"
    } else if status.last_error.is_some() || status.last_daily_error.is_some() {
        "🔴"
    } else if status.running {
        "🟢"
    } else {
        "🟡"
    }
}

/// The bot is running, and nothing is wrong with it.
pub open spec fn is_well(bot: BotModel, status: StatusModel) -> bool {
    bot.enabled && status.running && !status.has_error()
}

/// Something is wrong with the bot.
pub open spec fn is_ill(bot: BotModel, status: StatusModel) -> bool {
    bot.enabled && status.has_error()
}

/// How many bots are running well.
pub open spec fn well_count(bots: Seq<BotModel>, table: Map<Seq<char>, StatusModel>) -> nat
    decreases bots.len(),
{
    if bots.len() == 0 {
        0
    } else {
        well_count(bots.drop_last(), table) + if is_well(
            bots.last(),
            known(table, bots.last().id),
        ) {
            1nat
        } else {
            0
        }
    }
}

/// How many bots something is wrong with.
pub open spec fn ill_count(bots: Seq<BotModel>, table: Map<Seq<char>, StatusModel>) -> nat
    decreases bots.len(),
{
    if bots.len() == 0 {
        0
    } else {
        ill_count(bots.drop_last(), table) + if is_ill(bots.last(), known(table, bots.last().id)) {
            1nat
        } else {
            0
        }
    }
}

/// The line that shows when the pointer rests on the icon.
pub open spec fn tooltip(bots: Seq<BotModel>, table: Map<Seq<char>, StatusModel>) -> Seq<char> {
    "Msg2Note — "@ + decimal(well_count(bots, table)) + " running, "@ + decimal(
        ill_count(bots, table),
    ) + " error(s)"@
}

/// What the menu bar shows.
pub struct Tray {
    /// The line of each bot, with the id of its menu item.
    pub items: Vec<(String, String)>,
    pub tooltip: String,
}

/// What the menu bar shows: a line for each bot, and how many of them are well.
pub fn tray(config: &Config, table: &StatusTable) -> (r: Tray)
    requires
        table.wf(),
    ensures
        r.items@.len() == config@.bots.len(),
        forall|i: int|
            0 <= i < r.items@.len() ==> (#[trigger] r.items@[i]).0@ == "bot_"@ + config@.bots[i].id
                && r.items@[i].1@ == label_of(config@.bots[i], known(table@, config@.bots[i].id)),
        r.tooltip@ == tooltip(config@.bots, table@),
{
    let mut items: Vec<(String, String)> = Vec::new();
    let mut running: u64 = 0;
    let mut errors: u64 = 0;
    let mut i: usize = 0;
    assert(config@.bots.take(0) =~= Seq::<BotModel>::empty());
    while i < config.bots.len()
        invariant
            i <= config.bots@.len(),
            table.wf(),
            items@.len() == i,
            forall|k: int|
                0 <= k < i ==> (#[trigger] items@[k]).0@ == "bot_"@ + config@.bots[k].id
                    && items@[k].1@ == label_of(config@.bots[k], known(table@, config@.bots[k].id)),
            running <= i,
            errors <= i,
            running == well_count(config@.bots.take(i as int), table@),
            errors == ill_count(config@.bots.take(i as int), table@),
        decreases config.bots@.len() - i,
    {
        let bot = &config.bots[i];
        let status = table.status_of(bot.id.as_str());
        proof {
            assert(config@.bots.take(i + 1).drop_last() =~= config@.bots.take(i as int));
            assert(config@.bots.take(i + 1).last() == bot@);
            assert(config@.bots[i as int] == bot@);
        }
        let has_error = status.last_error.is_some() || status.last_daily_error.is_some();
        if bot.enabled && status.running && !has_error {
            running += 1;
        }
        if bot.enabled && has_error {
            errors += 1;
        }
        let mut key = "bot_".to_owned();
        key.append(bot.id.as_str());
        let mut label = light_text(bot.enabled, &status).to_owned();
        label.append(" ");
        label.append(bot.name.as_str());
        label.append("  ·  ");
        push_decimal(&mut label, status.message_count);
        label.append(" saved");
        items.push((key, label));
        i += 1;
    }
    assert(config@.bots.take(i as int) =~= config@.bots);
    let mut tooltip = "Msg2Note — ".to_owned();
    push_decimal(&mut tooltip, running);
    tooltip.append(" running, ");
    push_decimal(&mut tooltip, errors);
    tooltip.append(" error(s)");
    Tray { items, tooltip }
}

proof fn lemma_strip(a: Seq<char>, b: Seq<char>, end: Seq<char>)
    requires
        a + end == b + end,
    ensures
        a == b,
{
    let s = a + end;
    assert(a =~= s.take(s.len() - end.len()));
    assert(b =~= s.take(s.len() - end.len()));
}

proof fn lemma_split_truth(a: Seq<char>, p: bool, b: Seq<char>, q: bool)
    requires
        a + truth(p) == b + truth(q),
    ensures
        p == q,
        a == b,
{
    reveal_strlit("true");
    reveal_strlit("false");
    let s = a + truth(p);
    assert(s[s.len() - 2] == if p {
        'u'
    } else {
        's'
    });
    assert(s[s.len() - 2] == if q {
        'u'
    } else {
        's'
    });
    lemma_strip(a, b, truth(p));
}

proof fn lemma_split_decimal(a: Seq<char>, m: nat, b: Seq<char>, n: nat)
    requires
        a + "|"@ + decimal(m) == b + "|"@ + decimal(n),
    ensures
        m == n,
        a == b,
{
    reveal_strlit("|");
    lemma_decimal_is_digits(m);
    lemma_decimal_is_digits(n);
    law_decimal_round_trip(m);
    law_decimal_round_trip(n);
    let s = a + "|"@ + decimal(m);
    let x = decimal(m);
    let y = decimal(n);
    assert(s[s.len() - x.len() - 1] == '|');
    assert(s[s.len() - y.len() - 1] == '|');
    if x.len() < y.len() {
        let k = y.len() - x.len() - 1;
        assert(s[s.len() - x.len() - 1] == y[k]);
        assert(is_digit(y[k]));
    }
    if y.len() < x.len() {
        let k = x.len() - y.len() - 1;
        assert(s[s.len() - y.len() - 1] == x[k]);
        assert(is_digit(x[k]));
    }
    assert(x =~= s.skip(s.len() - x.len()));
    assert(y =~= s.skip(s.len() - y.len()));
    lemma_strip(a + "|"@, b + "|"@, x);
    lemma_strip(a, b, "|"@);
}

proof fn lemma_assoc(a: Seq<char>, b: Seq<char>, c: Seq<char>)
    ensures
        a + (b + c) == a + b + c,
{
    assert(a + (b + c) =~= a + b + c);
}

/// The state of a bot, as far as the menu shows it.
pub open spec fn seen(enabled: bool, status: StatusModel) -> (bool, bool, bool, bool, u64) {
    (
        enabled,
        status.running,
        status.last_error is Some,
        status.last_daily_error is Some,
        status.message_count,
    )
}

proof fn lemma_split_state(
    a: Seq<char>,
    e: bool,
    s: StatusModel,
    b: Seq<char>,
    f: bool,
    t: StatusModel,
)
    requires
        a + state_part(e, s) == b + state_part(f, t),
    ensures
        seen(e, s) == seen(f, t),
        a == b,
{
    let x1 = truth(e);
    let x2 = x1 + "|"@ + truth(s.running);
    let x3 = x2 + "|"@ + truth(s.last_error is Some);
    let x4 = x3 + "|"@ + truth(s.last_daily_error is Some);
    let x5 = x4 + "|"@ + decimal(s.message_count as nat);
    let y1 = truth(f);
    let y2 = y1 + "|"@ + truth(t.running);
    let y3 = y2 + "|"@ + truth(t.last_error is Some);
    let y4 = y3 + "|"@ + truth(t.last_daily_error is Some);
    let y5 = y4 + "|"@ + decimal(t.message_count as nat);
    lemma_assoc(a, x5, ";"@);
    lemma_assoc(b, y5, ";"@);
    lemma_strip(a + x5, b + y5, ";"@);
    assert(a + x5 =~= (a + x4) + "|"@ + decimal(s.message_count as nat));
    assert(b + y5 =~= (b + y4) + "|"@ + decimal(t.message_count as nat));
    lemma_split_decimal(a + x4, s.message_count as nat, b + y4, t.message_count as nat);
    lemma_split_flag(a, x3, s.last_daily_error is Some, b, y3, t.last_daily_error is Some);
    lemma_split_flag(a, x2, s.last_error is Some, b, y2, t.last_error is Some);
    lemma_split_flag(a, x1, s.running, b, y1, t.running);
    lemma_split_truth(a, e, b, f);
}

proof fn lemma_split_flag(
    a: Seq<char>,
    x: Seq<char>,
    p: bool,
    b: Seq<char>,
    y: Seq<char>,
    q: bool,
)
    requires
        a + (x + "|"@ + truth(p)) == b + (y + "|"@ + truth(q)),
    ensures
        p == q,
        a + x == b + y,
{
    assert(a + (x + "|"@ + truth(p)) =~= (a + x + "|"@) + truth(p));
    assert(b + (y + "|"@ + truth(q)) =~= (b + y + "|"@) + truth(q));
    lemma_split_truth(a + x + "|"@, p, b + y + "|"@, q);
    lemma_strip(a + x, b + y, "|"@);
}

/// The same bots, though their states may differ.
pub open spec fn same_bots(a: Seq<BotModel>, b: Seq<BotModel>) -> bool {
    a.len() == b.len() && forall|i: int|
        0 <= i < a.len() ==> (#[trigger] a[i]).id == b[i].id && a[i].name == b[i].name
}

/// Nothing that the menu shows changes unnoticed: of the same bots, a different
/// state of any of them, as far as it is shown, has a different fingerprint.
pub proof fn law_no_change_goes_unnoticed(
    a: Seq<BotModel>,
    before: Map<Seq<char>, StatusModel>,
    b: Seq<BotModel>,
    after: Map<Seq<char>, StatusModel>,
    i: int,
)
    requires
        same_bots(a, b),
        fingerprint(a, before) == fingerprint(b, after),
        0 <= i < a.len(),
    ensures
        seen(a[i].enabled, known(before, a[i].id)) == seen(b[i].enabled, known(after, b[i].id)),
        label_of(a[i], known(before, a[i].id)) == label_of(b[i], known(after, b[i].id)),
    decreases a.len(),
{
    let x = a.last();
    let y = b.last();
    assert(a[a.len() - 1].id == b[a.len() - 1].id);
    let head = x.id + "|"@ + x.name + "|"@;
    let f = fingerprint(a.drop_last(), before);
    let g = fingerprint(b.drop_last(), after);
    lemma_assoc(f, head, state_part(x.enabled, known(before, x.id)));
    lemma_assoc(g, head, state_part(y.enabled, known(after, y.id)));
    lemma_split_state(
        f + head,
        x.enabled,
        known(before, x.id),
        g + head,
        y.enabled,
        known(after, y.id),
    );
    lemma_strip(f, g, head);
    if i < a.len() - 1 {
        assert forall|k: int| 0 <= k < a.drop_last().len() implies (#[trigger] a.drop_last()[k]).id
            == b.drop_last()[k].id && a.drop_last()[k].name == b.drop_last()[k].name by {
            assert(a[k].id == b[k].id);
        }
        law_no_change_goes_unnoticed(a.drop_last(), before, b.drop_last(), after, i);
    }
}

proof fn lemma_same_counts(
    a: Seq<BotModel>,
    before: Map<Seq<char>, StatusModel>,
    b: Seq<BotModel>,
    after: Map<Seq<char>, StatusModel>,
)
    requires
        a.len() == b.len(),
        forall|i: int|
            0 <= i < a.len() ==> seen((#[trigger] a[i]).enabled, known(before, a[i].id)) == seen(
                b[i].enabled,
                known(after, b[i].id),
            ),
    ensures
        well_count(a, before) == well_count(b, after),
        ill_count(a, before) == ill_count(b, after),
    decreases a.len(),
{
    if a.len() > 0 {
        let x = a[a.len() - 1];
        assert(seen(x.enabled, known(before, x.id)) == seen(
            b.last().enabled,
            known(after, b.last().id),
        ));
        assert forall|i: int| 0 <= i < a.drop_last().len() implies seen(
            (#[trigger] a.drop_last()[i]).enabled,
            known(before, a.drop_last()[i].id),
        ) == seen(b.drop_last()[i].enabled, known(after, b.drop_last()[i].id)) by {
            let y = a[i];
        }
        lemma_same_counts(a.drop_last(), before, b.drop_last(), after);
    }
}

/// Nor do the counts change unnoticed.
pub proof fn law_the_counts_do_not_change_unnoticed(
    a: Seq<BotModel>,
    before: Map<Seq<char>, StatusModel>,
    b: Seq<BotModel>,
    after: Map<Seq<char>, StatusModel>,
)
    requires
        same_bots(a, b),
        fingerprint(a, before) == fingerprint(b, after),
    ensures
        tooltip(a, before) == tooltip(b, after),
{
    assert forall|i: int| 0 <= i < a.len() implies seen(
        (#[trigger] a[i]).enabled,
        known(before, a[i].id),
    ) == seen(b[i].enabled, known(after, b[i].id)) by {
        law_no_change_goes_unnoticed(a, before, b, after, i);
    }
    lemma_same_counts(a, before, b, after);
}

/// A light tells the state of its bot: white for one that is disabled, red for one
/// with an error of either kind, green for one that runs, yellow for one that does
/// not yet.
pub proof fn law_a_light_tells_the_state(enabled: bool, status: StatusModel)
    ensures
        !enabled ==> light(enabled, status) == "⚪"@,
        enabled && (status.last_error is Some || status.last_daily_error is Some) ==> light(
            enabled,
            status,
        ) == "🔴"@,
        enabled && status.last_error is None && status.last_daily_error is None && status.running
            ==> light(enabled, status) == "🟢"@,
        enabled && status.last_error is None && status.last_daily_error is None && !status.running
            ==> light(enabled, status) == "🟡"@,
{
}

/// A bot counts as running when it is enabled, runs and has no error, and as an
/// error when it is enabled and has one; each counts once.
pub proof fn law_each_bot_counts_once(
    bots: Seq<BotModel>,
    bot: BotModel,
    table: Map<Seq<char>, StatusModel>,
)
    ensures
        well_count(Seq::empty(), table) == 0,
        ill_count(Seq::empty(), table) == 0,
        ({
            let status = known(table, bot.id);
            let error = status.last_error is Some || status.last_daily_error is Some;
            &&& well_count(bots.push(bot), table) == well_count(bots, table) + if bot.enabled
                && status.running && !error {
                1nat
            } else {
                0
            }
            &&& ill_count(bots.push(bot), table) == ill_count(bots, table) + if bot.enabled
                && error {
                1nat
            } else {
                0
            }
        }),
{
    assert(bots.push(bot).drop_last() =~= bots);
    assert(bots.push(bot).last() == bot);
}

/// The line of a bot has its light, its name and its count; the line on the icon
/// has the two counts.
pub proof fn law_the_menu_says_what_there_is(
    bots: Seq<BotModel>,
    bot: BotModel,
    status: StatusModel,
    table: Map<Seq<char>, StatusModel>,
)
    ensures
        label_of(bot, status) == light(bot.enabled, status) + " "@ + bot.name + "  ·  "@ + decimal(
            status.message_count as nat,
        ) + " saved"@,
        tooltip(bots, table) == "Msg2Note — "@ + decimal(well_count(bots, table)) + " running, "@
            + decimal(ill_count(bots, table)) + " error(s)"@,
{
}

} // verus!
