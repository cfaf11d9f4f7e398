//! What the program does when it starts: whether it opens its window, and
//! which virtual nodes it asks PipeWire for.
use vstd::prelude::*;

use crate::model::bus::BusConfig;
use crate::model::config::AppConfig;
use crate::model::strip::{StripConfig, StripKind};
use crate::pw::message::{commands_view, lemma_commands_view_push, CommandView, PwCommand};
use crate::text::same_text;

verus! {

/// The argument asks for starting in the tray, without the window.
pub open spec fn is_hidden_flag(a: Seq<char>) -> bool {
    a == "--minimized"@ || a == "--tray"@
}

/// Whether the command line asks for starting without the window: some
/// argument is `--minimized` or `--tray`.
pub fn starts_hidden(args: &Vec<String>) -> (r: bool)
    ensures
        r == exists|i: int| 0 <= i < args@.len() && is_hidden_flag(#[trigger] args@[i]@),
{
    let mut i: usize = 0;
    while i < args.len()
        invariant
            i <= args@.len(),
            forall|j: int| 0 <= j < i ==> !is_hidden_flag(#[trigger] args@[j]@),
        decreases args@.len() - i,
    {
        if same_text(args[i].as_str(), "--minimized") || same_text(args[i].as_str(), "--tray") {
            proof {
                assert(is_hidden_flag(args@[i as int]@));
            }
            return true;
        }
        i = i + 1;
    }
    false
}

/// The request creating a bus.
pub open spec fn bus_creation(b: BusConfig) -> CommandView {
    CommandView::CreateBus { bus_id: b.id, name: b.name@, channels: b.channels }
}

/// The requests creating the virtual node of a strip: none for a hardware
/// input.
pub open spec fn strip_creation(s: StripConfig) -> Seq<CommandView> {
    match s.kind {
        StripKind::HardwareInput { .. } => Seq::empty(),
        StripKind::VirtualInput { name } => seq![
            CommandView::CreateVirtualInput { strip_id: s.id, name: name@, channels: s.channels },
        ],
        StripKind::VirtualOutput { voutput_id, name } => seq![
            CommandView::CreateVirtualOutput { voutput_id, name: name@, channels: s.channels },
        ],
    }
}

/// The requests creating the virtual nodes of a list of strips, in order.
pub open spec fn strips_creation(strips: Seq<StripConfig>) -> Seq<CommandView>
    decreases strips.len(),
{
    if strips.len() == 0 {
        Seq::empty()
    } else {
        strips_creation(strips.drop_last()) + strip_creation(strips.last())
    }
}

/// The requests sent at start: every bus in order, then the virtual node of
/// every virtual strip in order.
pub open spec fn startup(c: AppConfig) -> Seq<CommandView> {
    c.buses@.map_values(|b: BusConfig| bus_creation(b)) + strips_creation(c.strips@)
}

/// The requests that create the configured buses, virtual inputs and
/// virtual outputs.
pub fn startup_commands(config: &AppConfig) -> (r: Vec<PwCommand>)
    ensures
        commands_view(r@) == startup(*config),
{
    let mut r: Vec<PwCommand> = Vec::new();
    for i in 0..config.buses.len()
        invariant
            commands_view(r@) == config.buses@.take(i as int).map_values(|b: BusConfig| bus_creation(b)),
    {
        let b = &config.buses[i];
        let ghost prev = r@;
        r.push(PwCommand::CreateBus { bus_id: b.id, name: b.name.clone(), channels: b.channels });
        proof {
            lemma_commands_view_push(prev, r@.last());
            assert(prev.push(r@.last()) =~= r@);
            assert(config.buses@.take(i + 1).map_values(|b: BusConfig| bus_creation(b)) =~= config.buses@.take(
                i as int,
            ).map_values(|b: BusConfig| bus_creation(b)).push(bus_creation(config.buses@[i as int])));
        }
    }
    proof {
        assert(config.buses@.take(config.buses@.len() as int) =~= config.buses@);
    }
    let ghost bus_part = commands_view(r@);
    for i in 0..config.strips.len()
        invariant
            commands_view(r@) == bus_part + strips_creation(config.strips@.take(i as int)),
    {
        let s = &config.strips[i];
        let ghost prev = r@;
        proof {
            assert(config.strips@.take(i + 1).drop_last() =~= config.strips@.take(i as int));
        }
        match &s.kind {
            StripKind::HardwareInput { .. } => {
                proof {
                    assert(commands_view(r@) =~= bus_part + strips_creation(config.strips@.take(i + 1)));
                }
            },
            StripKind::VirtualInput { name } => {
                r.push(PwCommand::CreateVirtualInput { strip_id: s.id, name: name.clone(), channels: s.channels });
                proof {
                    lemma_commands_view_push(prev, r@.last());
                    assert(prev.push(r@.last()) =~= r@);
                    assert(commands_view(r@) =~= bus_part + strips_creation(config.strips@.take(i + 1)));
                }
            },
            StripKind::VirtualOutput { voutput_id, name } => {
                r.push(
                    PwCommand::CreateVirtualOutput {
                        voutput_id: *voutput_id,
                        name: name.clone(),
                        channels: s.channels,
                    },
                );
                proof {
                    lemma_commands_view_push(prev, r@.last());
                    assert(prev.push(r@.last()) =~= r@);
                    assert(commands_view(r@) =~= bus_part + strips_creation(config.strips@.take(i + 1)));
                }
            },
        }
    }
    proof {
        assert(config.strips@.take(config.strips@.len() as int) =~= config.strips@);
    }
    r
}

} // verus!
