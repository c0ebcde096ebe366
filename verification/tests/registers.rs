use uart_driver::uart::internal::UART;
use uart_driver::uart::registers::{Access, History, Register, RegisterBlock};
use uart_driver::uart::simulation::{SimulatedRegisters, TRANSMITTER_IDLE};
use uart_driver::uart::UARTDriver;

/// A register block that answers every read with the same byte and notes
/// what it is asked to do.
struct Constant {
    answer: u8,
    seen: Vec<Access>,
}

impl RegisterBlock for Constant {
    fn accesses(&self) -> History {
        unreachable!("a history is asked for in proofs only")
    }

    fn read(&mut self, register: Register) -> u8 {
        self.seen.push(Access::Read(register, self.answer));
        self.answer
    }

    fn write(&mut self, register: Register, value: u8) {
        self.seen.push(Access::Write(register, value));
    }
}

#[test]
fn a_block_from_outside_is_accessed_directly() {
    let mut block = Constant { answer: 0x5a, seen: Vec::new() };
    assert_eq!(block.read(Register::Lsr), 0x5a);
    block.write(Register::LcrPd, 3);
    assert_eq!(block.read(Register::RthrDll), 0x5a);
    assert_eq!(
        block.seen,
        vec![
            Access::Read(Register::Lsr, 0x5a),
            Access::Write(Register::LcrPd, 3),
            Access::Read(Register::RthrDll, 0x5a)
        ]
    );
}

#[test]
fn a_driver_runs_on_a_block_from_outside() {
    let block = Constant { answer: 0xff, seen: Vec::new() };
    let mut driver = UARTDriver::new(UART::new(block));
    driver.put(0x63);
    assert_eq!(driver.get(), Some(0xff));
    assert_eq!(
        driver.uart().registers().seen,
        vec![
            Access::Read(Register::LcrPd, 0xff),
            Access::Write(Register::LcrPd, 0xff),
            Access::Write(Register::IsrFcr, 0x01),
            Access::Write(Register::IerDlm, 0x01),
            Access::Read(Register::LcrPd, 0xff),
            Access::Write(Register::LcrPd, 0xff),
            Access::Write(Register::RthrDll, 0x50),
            Access::Write(Register::IerDlm, 0x02),
            Access::Read(Register::LcrPd, 0xff),
            Access::Write(Register::LcrPd, 0x7f),
            Access::Write(Register::RthrDll, 0x63),
            Access::Read(Register::Lsr, 0xff),
            Access::Read(Register::RthrDll, 0xff),
        ]
    );
}

#[test]
fn hardware_control_on_a_block_from_outside_masks_what_it_reads() {
    let mut uart = UART::new(Constant { answer: 0b1111_1110, seen: Vec::new() });
    assert_eq!(uart.get_word_length(), 0b10);
    assert_eq!(uart.get_dr(), 0);
    assert_eq!(uart.get_rhr(), 0b1111_1110);
}

#[test]
fn a_device_after_reset() {
    let registers = SimulatedRegisters::new();
    assert_eq!(registers.line_control, 0);
    assert_eq!(registers.interrupt_enable, 0);
    assert_eq!(registers.fifo_control, 0);
    assert_eq!(registers.modem_control, 0);
    assert_eq!(registers.divisor_least, 0);
    assert_eq!(registers.divisor_most, 0);
    assert!(registers.received.is_empty());
    assert!(registers.transmitted.is_empty());
    assert!(registers.log.is_empty());
}

#[test]
fn offsets_0_and_1_reach_the_data_port_and_interrupt_enable_while_the_latch_is_closed() {
    let mut registers = SimulatedRegisters::new();
    registers.write(Register::RthrDll, 0x41);
    registers.write(Register::IerDlm, 0x05);
    assert_eq!(registers.transmitted, vec![0x41]);
    assert_eq!(registers.interrupt_enable, 0x05);
    assert_eq!(registers.divisor_least, 0);
    assert_eq!(registers.divisor_most, 0);
    assert_eq!(registers.read(Register::IerDlm), 0x05);
}

#[test]
fn offsets_0_and_1_reach_the_divisor_while_the_latch_is_open() {
    let mut registers = SimulatedRegisters::new();
    registers.received.push(0x77);
    registers.write(Register::LcrPd, 0x80);
    registers.write(Register::RthrDll, 0x50);
    registers.write(Register::IerDlm, 0x02);
    assert_eq!(registers.divisor_least, 0x50);
    assert_eq!(registers.divisor_most, 0x02);
    assert!(registers.transmitted.is_empty());
    assert_eq!(registers.interrupt_enable, 0);
    assert_eq!(registers.read(Register::RthrDll), 0x50);
    assert_eq!(registers.read(Register::IerDlm), 0x02);
    assert_eq!(registers.received, vec![0x77]);
}

#[test]
fn the_plain_registers_hold_what_was_written() {
    let mut registers = SimulatedRegisters::new();
    registers.write(Register::IsrFcr, 0x01);
    registers.write(Register::LcrPd, 0x1b);
    registers.write(Register::Mcr, 0x0a);
    assert_eq!(registers.fifo_control, 0x01);
    assert_eq!(registers.read(Register::LcrPd), 0x1b);
    assert_eq!(registers.read(Register::Mcr), 0x0a);
    assert_eq!(registers.read(Register::IsrFcr), 0);
    assert_eq!(registers.read(Register::Msr), 0);
    assert_eq!(registers.read(Register::Spr), 0);
}

#[test]
fn line_status_tells_whether_a_byte_waits() {
    let mut registers = SimulatedRegisters::new();
    assert_eq!(TRANSMITTER_IDLE, 0b0110_0000);
    assert_eq!(registers.read(Register::Lsr), 0b0110_0000);
    registers.received.push(0x31);
    assert_eq!(registers.read(Register::Lsr), 0b0110_0001);
    assert_eq!(registers.read(Register::RthrDll), 0x31);
    assert_eq!(registers.read(Register::Lsr), 0b0110_0000);
    assert_eq!(registers.read(Register::RthrDll), 0);
}

#[test]
fn the_device_logs_every_access() {
    let mut registers = SimulatedRegisters::new();
    registers.write(Register::LcrPd, 0x03);
    let seen = registers.read(Register::LcrPd);
    registers.write(Register::RthrDll, 0x0a);
    assert_eq!(seen, 0x03);
    assert_eq!(
        registers.log,
        vec![
            Access::Write(Register::LcrPd, 0x03),
            Access::Read(Register::LcrPd, 0x03),
            Access::Write(Register::RthrDll, 0x0a)
        ]
    );
}
