use bip39_last_word::display::{PanelInitError, PanelStep, TDisplayS3ProSt7796};

#[test]
fn panel_power_up_follows_the_vendor_sequence() {
    let panel = TDisplayS3ProSt7796;
    assert_eq!(
        panel.init_sequence(false, 0x48, true).err(),
        Some(PanelInitError::UnsupportedInterface)
    );
    let steps = panel.init_sequence(true, 0x48, true).ok().expect("serial panel");
    assert_eq!(steps.len(), 25);
    match &steps[0] {
        PanelStep::Delay { microseconds } => assert_eq!(*microseconds, 120_000),
        PanelStep::Command { .. } => panic!("the sequence starts with a delay"),
    }
    match &steps[7] {
        PanelStep::Command { command, parameters } => {
            assert_eq!(*command, 0x36);
            assert_eq!(parameters, &vec![0x48]);
        }
        PanelStep::Delay { .. } => panic!("step 7 sets the address mode"),
    }
    match &steps[21] {
        PanelStep::Command { command, parameters } => {
            assert_eq!(*command, 0x21);
            assert!(parameters.is_empty());
        }
        PanelStep::Delay { .. } => panic!("step 21 sets the inversion"),
    }
    let plain = panel.init_sequence(true, 0x00, false).ok().expect("serial panel");
    match &plain[21] {
        PanelStep::Command { command, .. } => assert_eq!(*command, 0x20),
        PanelStep::Delay { .. } => panic!("step 21 sets the inversion"),
    }
    match &plain[16] {
        PanelStep::Command { command, parameters } => {
            assert_eq!(*command, 0xE0);
            assert_eq!(parameters.len(), 14);
        }
        PanelStep::Delay { .. } => panic!("step 16 is the positive gamma curve"),
    }
}
