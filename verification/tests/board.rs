use rm690b0_rs::displays::lilygo_t4_s3::command_address_of;
use rm690b0_rs::{
    ColorMode, ControllerInterface, DataMode, DelayMs, DisplaySize, DriverError, HalfDuplexBus,
    Lgt4s3Driver, OutputLine, ResetDriver, ResetInterface, Rm690b0Driver, DMA_CHUNK_SIZE,
};
use std::cell::RefCell;
use std::rc::Rc;

#[derive(Debug, Clone, PartialEq, Eq)]
struct Write {
    data_mode: DataMode,
    opcode: u8,
    opcode_lines: DataMode,
    address: u32,
    address_bits: u8,
    address_lines: DataMode,
    dummy: u8,
    payload: Vec<u8>,
}

struct Bus {
    writes: Vec<Write>,
    fail_at: Option<usize>,
}

impl Bus {
    fn new(fail_at: Option<usize>) -> Self {
        Bus { writes: Vec::new(), fail_at }
    }
}

impl HalfDuplexBus for Bus {
    type Error = u32;

    fn half_duplex_write(
        &mut self,
        data_mode: DataMode,
        opcode: u8,
        opcode_lines: DataMode,
        address: u32,
        address_bits: u8,
        address_lines: DataMode,
        dummy: u8,
        payload: &[u8],
    ) -> Result<(), Self::Error> {
        let index = self.writes.len();
        self.writes.push(Write {
            data_mode,
            opcode,
            opcode_lines,
            address,
            address_bits,
            address_lines,
            dummy,
            payload: payload.to_vec(),
        });
        if self.fail_at == Some(index) {
            Err(42)
        } else {
            Ok(())
        }
    }
}

#[derive(Debug, Clone, PartialEq, Eq)]
enum Step {
    Level(bool),
    Wait(u32),
}

type Steps = Rc<RefCell<Vec<Step>>>;

struct Pin {
    steps: Steps,
    refuse: Option<bool>,
}

impl OutputLine for Pin {
    type Error = &'static str;

    fn set_level(&mut self, high: bool) -> Result<(), Self::Error> {
        self.steps.borrow_mut().push(Step::Level(high));
        if self.refuse == Some(high) {
            Err("pin fault")
        } else {
            Ok(())
        }
    }
}

struct Clock {
    steps: Steps,
}

impl DelayMs for Clock {
    fn delay_ms(&mut self, ms: u32) {
        self.steps.borrow_mut().push(Step::Wait(ms));
    }
}

fn payload(len: usize) -> Vec<u8> {
    (0..len).map(|i| (i % 253) as u8).collect()
}

fn check_burst(len: usize, chunk: usize) {
    let pixels = payload(len);
    let mut driver = Lgt4s3Driver::new(Bus::new(None));
    assert!(driver.send_burst(&pixels, chunk).is_ok());
    let writes = &driver.bus().writes;
    assert_eq!(writes.len(), (len + chunk - 1) / chunk);
    let mut joined = Vec::new();
    for (k, write) in writes.iter().enumerate() {
        assert_eq!(write.data_mode, DataMode::Quad);
        assert_eq!(write.opcode, 0x32);
        assert_eq!(write.opcode_lines, DataMode::Single);
        assert_eq!(write.address, if k == 0 { 0x2C00 } else { 0x3C00 });
        assert_eq!(write.address_bits, 24);
        assert_eq!(write.address_lines, DataMode::Single);
        assert_eq!(write.dummy, 0);
        assert!(!write.payload.is_empty() && write.payload.len() <= chunk);
        if k + 1 < writes.len() {
            assert_eq!(write.payload.len(), chunk);
        }
        joined.extend_from_slice(&write.payload);
    }
    assert_eq!(joined, pixels);
}

#[test]
fn command_byte_stands_in_the_address() {
    assert_eq!(command_address_of(0x2C), 0x2C00);
    assert_eq!(command_address_of(0x3C), 0x3C00);
    assert_eq!(command_address_of(0x00), 0);
    assert_eq!(command_address_of(0xFF), 0xFF00);
}

#[test]
fn a_command_is_one_single_line_write() {
    let mut driver = Lgt4s3Driver::new(Bus::new(None));
    assert!(driver.send_command(0x11).is_ok());
    assert_eq!(
        driver.bus().writes,
        vec![Write {
            data_mode: DataMode::Single,
            opcode: 0x02,
            opcode_lines: DataMode::Single,
            address: 0x1100,
            address_bits: 24,
            address_lines: DataMode::Single,
            dummy: 0,
            payload: vec![],
        }]
    );
}

#[test]
fn a_command_with_data_carries_its_parameters() {
    let mut driver = Lgt4s3Driver::new(Bus::new(None));
    assert!(driver.send_command_with_data(0x2A, &[0, 10, 0, 19]).is_ok());
    assert_eq!(
        driver.bus().writes,
        vec![Write {
            data_mode: DataMode::Single,
            opcode: 0x02,
            opcode_lines: DataMode::Single,
            address: 0x2A00,
            address_bits: 24,
            address_lines: DataMode::Single,
            dummy: 0,
            payload: vec![0, 10, 0, 19],
        }]
    );
}

#[test]
fn bus_errors_come_back_unchanged() {
    let mut driver = Lgt4s3Driver::new(Bus::new(Some(0)));
    assert_eq!(driver.send_command(0x11), Err(42));
    let mut driver = Lgt4s3Driver::new(Bus::new(Some(0)));
    assert_eq!(driver.send_command_with_data(0x11, &[1]), Err(42));
    let mut driver = Lgt4s3Driver::new(Bus::new(Some(0)));
    assert_eq!(driver.send_pixels(&[1, 2, 3]), Err(42));
}

#[test]
fn bursts_split_into_chunks() {
    check_burst(10, 4);
    check_burst(8, 4);
    check_burst(3, 4);
    check_burst(4, 4);
    check_burst(5, 1);
    check_burst(1, 1);
    check_burst(1000, 7);
}

#[test]
fn an_empty_burst_sends_nothing() {
    let mut driver = Lgt4s3Driver::new(Bus::new(None));
    assert!(driver.send_burst(&[], 4).is_ok());
    assert!(driver.send_pixels(&[]).is_ok());
    assert!(driver.bus().writes.is_empty());
}

#[test]
fn chunk_sizes_of_a_short_burst() {
    let pixels = payload(10);
    let mut driver = Lgt4s3Driver::new(Bus::new(None));
    assert!(driver.send_burst(&pixels, 4).is_ok());
    let sizes: Vec<usize> = driver.bus().writes.iter().map(|w| w.payload.len()).collect();
    assert_eq!(sizes, vec![4, 4, 2]);
    assert_eq!(driver.bus().writes[2].payload, vec![8, 9]);
}

#[test]
fn pixels_travel_in_dma_sized_chunks() {
    assert_eq!(DMA_CHUNK_SIZE, 16380);
    let pixels = payload(2 * 16380 + 5);
    let mut driver = Lgt4s3Driver::new(Bus::new(None));
    assert!(driver.send_pixels(&pixels).is_ok());
    let writes = &driver.bus().writes;
    assert_eq!(writes.len(), 3);
    assert_eq!(writes[0].address, 0x2C00);
    assert_eq!(writes[1].address, 0x3C00);
    assert_eq!(writes[2].address, 0x3C00);
    assert_eq!(writes[0].payload.as_slice(), &pixels[..16380]);
    assert_eq!(writes[1].payload.as_slice(), &pixels[16380..32760]);
    assert_eq!(writes[2].payload.as_slice(), &pixels[32760..]);
    for write in writes {
        assert_eq!(write.data_mode, DataMode::Quad);
        assert_eq!(write.opcode, 0x32);
        assert_eq!(write.opcode_lines, DataMode::Single);
        assert_eq!(write.address_bits, 24);
        assert_eq!(write.address_lines, DataMode::Single);
        assert_eq!(write.dummy, 0);
    }
}

#[test]
fn a_whole_frame_of_the_panel_takes_fifty_chunks() {
    let pixels = payload(810000);
    let mut driver = Lgt4s3Driver::new(Bus::new(None));
    assert!(driver.send_pixels(&pixels).is_ok());
    assert_eq!(driver.bus().writes.len(), 50);
    assert_eq!(driver.bus().writes[49].payload.len(), 810000 - 49 * 16380);
}

#[test]
fn a_burst_stops_at_the_first_error() {
    for k in 0..3 {
        let pixels = payload(10);
        let mut driver = Lgt4s3Driver::new(Bus::new(Some(k)));
        assert_eq!(driver.send_burst(&pixels, 4), Err(42));
        assert_eq!(driver.bus().writes.len(), k + 1);
    }
}

#[test]
fn reset_is_low_wait_high_wait() {
    let steps: Steps = Rc::new(RefCell::new(Vec::new()));
    let pin = Pin { steps: steps.clone(), refuse: None };
    let mut reset = ResetDriver::new(pin, Clock { steps: steps.clone() });
    assert!(reset.reset().is_ok());
    assert_eq!(
        *steps.borrow(),
        vec![Step::Level(false), Step::Wait(20), Step::Level(true), Step::Wait(150)]
    );
}

#[test]
fn reset_stops_where_the_line_refuses() {
    let steps: Steps = Rc::new(RefCell::new(Vec::new()));
    let mut reset = ResetDriver::new(
        Pin { steps: steps.clone(), refuse: Some(false) },
        Clock { steps: steps.clone() },
    );
    assert_eq!(reset.reset(), Err("pin fault"));
    assert_eq!(*steps.borrow(), vec![Step::Level(false)]);

    let steps: Steps = Rc::new(RefCell::new(Vec::new()));
    let mut reset = ResetDriver::new(
        Pin { steps: steps.clone(), refuse: Some(true) },
        Clock { steps: steps.clone() },
    );
    assert_eq!(reset.reset(), Err("pin fault"));
    assert_eq!(*steps.borrow(), vec![Step::Level(false), Step::Wait(20), Step::Level(true)]);
}

#[test]
fn the_driver_runs_over_the_board() {
    let steps: Steps = Rc::new(RefCell::new(Vec::new()));
    let driver = Rm690b0Driver::new_heap::<Clock, 24>(
        Lgt4s3Driver::new(Bus::new(None)),
        ResetDriver::new(
            Pin { steps: steps.clone(), refuse: None },
            Clock { steps: steps.clone() },
        ),
        ColorMode::Rgb888,
        DisplaySize::new(4, 2),
        Clock { steps: steps.clone() },
    );
    assert!(driver.is_ok());
    assert_eq!(
        *steps.borrow(),
        vec![
            Step::Level(false),
            Step::Wait(20),
            Step::Level(true),
            Step::Wait(150),
            Step::Wait(120),
            Step::Wait(20),
        ]
    );
}

#[test]
fn a_refused_reset_line_ends_construction() {
    let steps: Steps = Rc::new(RefCell::new(Vec::new()));
    let driver = Rm690b0Driver::new_heap::<Clock, 24>(
        Lgt4s3Driver::new(Bus::new(None)),
        ResetDriver::new(
            Pin { steps: steps.clone(), refuse: Some(false) },
            Clock { steps: steps.clone() },
        ),
        ColorMode::Rgb888,
        DisplaySize::new(4, 2),
        Clock { steps: steps.clone() },
    );
    assert!(matches!(driver, Err(DriverError::ResetError("pin fault"))));
    assert_eq!(*steps.borrow(), vec![Step::Level(false)]);
}
