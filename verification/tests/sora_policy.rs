//! The supervisor's policies.

use kumo_userland::abi::{Handle, STATUS_OK};
use kumo_userland::hid::{
    AttentionIrq, BootMouseReport, HidDeviceKind, HidDeviceTopology, I2cHidBusTopology,
    MouseButtons,
};
use kumo_userland::kumo_rt::{run_one, Server};
use kumo_userland::sora::policy::{
    close_handles, close_handles_except, discover_i2c_hid_runtime_topology,
    select_i2c_hid_keyboard, summarize_i2c_hid_bus, I2cHidBusSummary, Message, PinUpdate,
    PointerPosition, PointerState, RestartBackoff, RestartBudget, RestartPolicy, ServerRecipe,
    Sora, SupervisedServer, SupervisedService, ROOT_SERVER_ORDINAL_ECHO, SORA_NAME,
};

fn attention(pin: u32) -> AttentionIrq {
    AttentionIrq {
        encoded: 0x8000_0000 | 8 << 16 | pin,
        is_gpio: true,
    }
}

fn device(kind: HidDeviceKind, i2c_address: u8, register: u16, pin: u32) -> HidDeviceTopology {
    HidDeviceTopology {
        kind,
        i2c_address,
        hid_descriptor_register: register,
        interrupt: attention(pin),
    }
}

fn x13s_bus() -> I2cHidBusTopology {
    I2cHidBusTopology {
        controller_mmio_base: 0x0089_4000,
        controller_mmio_length: 0x4000,
        bus_frequency_hz: 400_000,
        devices: vec![
            device(HidDeviceKind::Touchpad, 0x15, 1, 182),
            device(HidDeviceKind::Touchpad, 0x2c, 0x20, 182),
            device(HidDeviceKind::Keyboard, 0x68, 1, 104),
        ],
    }
}

#[test]
fn root_logic_is_host_testable() {
    let sora = Sora::new();
    let request = Message {
        ordinal: ROOT_SERVER_ORDINAL_ECHO,
        bytes: b"ping",
        handles: &[],
    };
    let reply = sora.echo(request);
    assert_eq!(reply.bytes, b"ping");
    assert_eq!(reply.ordinal, ROOT_SERVER_ORDINAL_ECHO);

    let supervised = SupervisedServer {
        process: Handle(3),
        client: Handle(5),
    };
    assert_eq!(supervised.process, Handle(3));
    assert_eq!(supervised.client, Handle(5));

    let service = SupervisedService {
        recipe: ServerRecipe {
            name: "ttyd",
            image_path: "bin/ttyd",
            restart: RestartPolicy::OnFailure,
        },
        instance: supervised,
    };
    assert_eq!(service.recipe.image_path, "bin/ttyd");
    assert_eq!(service.recipe.restart, RestartPolicy::OnFailure);
    assert_eq!(service.instance.process, Handle(3));
    assert_eq!(service.instance.client, Handle(5));
    assert!(!RestartPolicy::Never.should_restart(false));
    assert!(!RestartPolicy::Never.should_restart(true));
    assert!(!RestartPolicy::OnFailure.should_restart(false));
    assert!(RestartPolicy::OnFailure.should_restart(true));
    assert!(RestartPolicy::Always.should_restart(false));
    assert!(RestartPolicy::Always.should_restart(true));

    let handles = [Some(Handle(7)), None, Some(Handle(11))];
    let mut seen = [Handle(0); 2];
    let mut count = 0;
    let all_closed = close_handles(&handles, |handle| {
        seen[count] = handle;
        count += 1;
        if handle == Handle(7) {
            -1
        } else {
            STATUS_OK
        }
    });
    assert!(!all_closed);
    assert_eq!(seen, [Handle(7), Handle(11)]);

    let mut closed = Handle(0);
    assert!(close_handles_except(&handles, &[Handle(7)], |handle| {
        closed = handle;
        STATUS_OK
    }));
    assert_eq!(closed, Handle(11));
}

#[test]
fn pointer_state_starts_centered_and_sanitizes_empty_bounds() {
    let pointer = PointerState::new(1920, 1080);
    assert_eq!(pointer.width(), 1920);
    assert_eq!(pointer.height(), 1080);
    assert_eq!(pointer.position(), PointerPosition { x: 960, y: 540 });
    assert_eq!(pointer.buttons(), 0);
    assert_eq!(pointer.events(), 0);

    let empty = PointerState::new(0, 0);
    assert_eq!(empty.width(), 1);
    assert_eq!(empty.height(), 1);
    assert_eq!(empty.position(), PointerPosition { x: 0, y: 0 });
}

#[test]
fn pointer_state_applies_signed_deltas_buttons_and_clamps() {
    let mut pointer = PointerState::new(4, 3);
    pointer.apply_boot_mouse(BootMouseReport {
        buttons: MouseButtons::from_bits(MouseButtons::LEFT | 0x80),
        x_delta: 1,
        y_delta: -1,
    });
    assert_eq!(pointer.position(), PointerPosition { x: 3, y: 0 });
    assert_eq!(pointer.buttons(), MouseButtons::LEFT);
    assert_eq!(pointer.events(), 1);

    pointer.apply_boot_mouse(BootMouseReport {
        buttons: MouseButtons::from_bits(MouseButtons::RIGHT | MouseButtons::MIDDLE),
        x_delta: 100,
        y_delta: 100,
    });
    assert_eq!(pointer.position(), PointerPosition { x: 3, y: 2 });
    assert_eq!(
        pointer.buttons(),
        MouseButtons::RIGHT | MouseButtons::MIDDLE
    );
    assert_eq!(pointer.events(), 2);

    pointer.apply_boot_mouse(BootMouseReport {
        buttons: MouseButtons::from_bits(0),
        x_delta: -100,
        y_delta: -100,
    });
    assert_eq!(pointer.position(), PointerPosition { x: 0, y: 0 });
    assert_eq!(pointer.buttons(), 0);
    assert_eq!(pointer.events(), 3);
}

#[test]
fn i2c_hid_policy_summarizes_bus_and_selects_keyboard_only() {
    let updates: Vec<PinUpdate> = (0..15)
        .map(|i| PinUpdate {
            offset: if i == 14 { 0xb6000 } else { 0x51000 + i * 0x1000 },
            value: 0,
        })
        .collect();
    let discovery = discover_i2c_hid_runtime_topology(Some(x13s_bus()), Some(updates))
        .expect("X13s i2c21 HID runtime topology");

    assert_eq!(
        summarize_i2c_hid_bus(&discovery.bus),
        I2cHidBusSummary {
            total: 3,
            keyboards: 1,
            touchpads: 2,
            unknown: 0,
        }
    );

    let plan = discovery.pinctrl_plan.expect("X13s i2c21 TLMM plan");
    assert_eq!(plan.len(), 15);
    assert_eq!(plan[0].offset, 0x51000);
    assert_eq!(plan[14].offset, 0xb6000);

    let keyboard = select_i2c_hid_keyboard(&discovery.bus).expect("keyboard child");
    assert_eq!(keyboard.i2c_address, 0x68);
    assert_eq!(keyboard.hid_descriptor_register, 1);
    assert_eq!(keyboard.keyboard_interrupt, attention(104));
}

#[test]
fn restart_budget_gives_up_after_its_cap() {
    // A zero cap refuses immediately: a service that may not be restarted is given
    // up on its first death, consuming nothing.
    let mut none = RestartBudget::new(0);
    assert!(none.exhausted());
    assert!(!none.try_consume());

    // A cap of two grants exactly two attempts, then refuses every further one and
    // reports exhaustion. try_consume on a spent budget stays false and is a no-op.
    let mut budget = RestartBudget::new(2);
    assert!(!budget.exhausted());
    assert!(budget.try_consume());
    assert!(!budget.exhausted());
    assert!(budget.try_consume());
    assert!(budget.exhausted());
    assert!(!budget.try_consume());
    assert!(!budget.try_consume());
    assert!(budget.exhausted());
    let spent = budget;
    assert!(!budget.try_consume());
    assert_eq!(budget, spent);
}

#[test]
fn restart_backoff_doubles_and_stays_capped() {
    let mut backoff = RestartBackoff::new(50, 200);
    assert_eq!(backoff.next_delay_ns(), 50);
    assert_eq!(backoff.next_delay_ns(), 100);
    assert_eq!(backoff.next_delay_ns(), 200);
    assert_eq!(backoff.next_delay_ns(), 200);

    // An initial delay above the cap starts at the cap; multiplication cannot wrap.
    let mut capped = RestartBackoff::new(u64::MAX, 7);
    assert_eq!(capped.next_delay_ns(), 7);
    assert_eq!(capped.next_delay_ns(), 7);
}

#[test]
fn a_board_without_a_bus_has_no_topology() {
    assert!(discover_i2c_hid_runtime_topology(None, None).is_none());
    let bare = discover_i2c_hid_runtime_topology(Some(x13s_bus()), None).unwrap();
    assert!(bare.pinctrl_plan.is_none());
}

#[test]
fn the_root_server_answers_every_message() {
    let mut sora = Sora::new();
    assert_eq!(sora.name(), SORA_NAME);
    assert_eq!(run_one(&mut sora, Handle(1), b"anything"), STATUS_OK);
}
