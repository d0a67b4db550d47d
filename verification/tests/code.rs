use tarnos::boot::{script_of, BootProgram};
use tarnos::task::process::USER_STACK_TOP;
use tarnos::user::code::{Program, BUFFER, BUFFER_LEN};
use tarnos::user::script::{
    has_pattern, Action, Call, Expect, OnFailure, Op, Phase, Reply, Runner, Script, Step,
};

/// What a piece of code did before it stopped.
#[derive(Debug, PartialEq)]
enum Event {
    Call(Call),
    Touch(u64),
    Pause,
    Spin,
}

/// A processor that knows the few instructions that programs are made of.
struct Cpu<'a> {
    code: &'a [u8],
    rip: usize,
    regs: [u64; 16],
    zero: bool,
    carry: bool,
    sign: bool,
    buffer: [u8; 512],
}

impl Cpu<'_> {
    fn rel32(&self, at: usize) -> i64 {
        let b = &self.code[at..at + 4];
        i32::from_le_bytes([b[0], b[1], b[2], b[3]]) as i64
    }

    fn jump(&mut self, len: usize, d: i64) {
        self.rip = (self.rip as i64 + len as i64 + d) as usize;
    }

    fn flags(&mut self, value: u64, carry: bool) {
        self.zero = value == 0;
        self.sign = value >> 63 == 1;
        self.carry = carry;
    }

    fn run(&mut self) -> Event {
        for _ in 0..100_000 {
            let c = &self.code[self.rip..];
            match c[0] {
                0x48..=0x4D if c[1] & 0xF8 == 0xB8 => {
                    let reg = (c[1] & 7) as usize + 8 * (c[0] & 1) as usize;
                    let mut imm = [0u8; 8];
                    imm.copy_from_slice(&c[2..10]);
                    self.regs[reg] = u64::from_le_bytes(imm);
                    self.rip += 10;
                }
                0x48..=0x4D if [0x89, 0x01, 0x39, 0x85].contains(&c[1]) => {
                    let to = (c[2] & 7) as usize + 8 * (c[0] & 1) as usize;
                    let from = ((c[2] >> 3) & 7) as usize + 8 * ((c[0] >> 2) & 1) as usize;
                    let (a, b) = (self.regs[to], self.regs[from]);
                    match c[1] {
                        0x89 => self.regs[to] = b,
                        0x01 => {
                            let (sum, carry) = a.overflowing_add(b);
                            self.regs[to] = sum;
                            self.flags(sum, carry);
                        }
                        0x39 => self.flags(a.wrapping_sub(b), a < b),
                        _ => self.flags(a & b, false),
                    }
                    self.rip += 3;
                }
                0x49 if c[1] == 0xFF && c[2] == 0xCD => {
                    self.regs[13] = self.regs[13].wrapping_sub(1);
                    let value = self.regs[13];
                    let carry = self.carry;
                    self.flags(value, carry);
                    self.rip += 3;
                }
                0x0F if c[1] == 0x05 => {
                    self.rip += 2;
                    return Event::Call(Call {
                        rax: self.regs[0],
                        rdi: self.regs[7],
                        rsi: self.regs[6],
                        rdx: self.regs[2],
                        r10: self.regs[10],
                        r8: self.regs[8],
                        r9: self.regs[9],
                    });
                }
                0x0F => {
                    let taken = match c[1] {
                        0x82 => self.carry,
                        0x84 => self.zero,
                        0x85 => !self.zero,
                        0x88 => self.sign,
                        other => panic!("condition {other:#x}"),
                    };
                    let d = self.rel32(self.rip + 2);
                    self.jump(6, if taken { d } else { 0 });
                }
                0xE9 => {
                    let d = self.rel32(self.rip + 1);
                    self.jump(5, d);
                }
                0xEB => {
                    assert_eq!(c[1], 0xFE);
                    return Event::Spin;
                }
                0xF3 => {
                    self.rip += 2;
                    return Event::Pause;
                }
                0x8A => {
                    self.rip += 2;
                    return Event::Touch(self.regs[0]);
                }
                0x31 => {
                    self.regs[1] = 0;
                    self.rip += 2;
                }
                0x41 => {
                    assert_eq!(c[1..4], [0x38, 0x0C, 0x0E]);
                    assert_eq!(self.regs[14], BUFFER);
                    let value = self.buffer[self.regs[1] as usize];
                    self.zero = value == self.regs[1] as u8;
                    self.rip += 4;
                }
                0xFF => {
                    self.regs[1] += 1;
                    self.rip += 2;
                }
                0x81 => {
                    assert_eq!(c[1..6], [0xF9, 0x00, 0x02, 0x00, 0x00]);
                    self.zero = self.regs[1] == 512;
                    self.rip += 6;
                }
                0x75 => {
                    let d = c[1] as i8 as i64;
                    self.jump(2, if self.zero { 0 } else { d });
                }
                other => panic!("instruction {other:#x} at {}", self.rip),
            }
        }
        panic!("the code runs in circles");
    }
}

/// Runs the code and the script side by side on the same answers.
fn agree(script: &Script, seed: u64, limit: usize) {
    let page = Program::new(script).unwrap().assemble().unwrap();
    assert!(page.len() <= 4096);
    let mut cpu = Cpu {
        code: &page,
        rip: 0,
        regs: [0xDEAD; 16],
        zero: false,
        carry: false,
        sign: false,
        buffer: [0; 512],
    };
    let mut runner = Runner::new(script);
    let mut random = seed;
    for _ in 0..limit {
        let event = cpu.run();
        let expected = match runner.action(script, BUFFER) {
            Action::Call(call) => Event::Call(call),
            Action::Touch(addr) => Event::Touch(addr),
            Action::Pause => Event::Pause,
            Action::Over => Event::Spin,
        };
        assert_eq!(event, expected);
        if runner.phase == Phase::Over {
            return;
        }
        random = random.wrapping_mul(6364136223846793005).wrapping_add(1442695040888963407);
        let pick = (random >> 33) as usize;
        let wanted = match runner.phase {
            Phase::Steps => match script.steps[runner.step].expect {
                Expect::Exactly(value) => (value, 0, 0),
                Expect::KeptPlus(amount) => (runner.kept.wrapping_add(amount), 0, 0),
                Expect::Values { first, second } => (0, first, second),
                Expect::Word { text } => {
                    let m = tarnos::abi::Message::from_str_lossy(text);
                    (0, m.tag, m.words[0])
                }
                _ => (0, 0, 0),
            },
            _ => (0, 0, 0),
        };
        let (rax, rdi, rsi) = match pick % 16 {
            0 => (u64::MAX - 1, 3, 4),
            1 => (5, 6, 7),
            2 => (0, 0, 0),
            _ => wanted,
        };
        if let Event::Call(_) = event {
            cpu.regs[0] = rax;
            cpu.regs[7] = rdi;
            cpu.regs[6] = rsi;
        }
        for (i, b) in cpu.buffer.iter_mut().enumerate() {
            *b = if pick % 32 < 30 { (i % 256) as u8 } else { 1 };
        }
        let reply = Reply {
            rax: cpu.regs[0],
            rdi: cpu.regs[7],
            rsi: cpu.regs[6],
            pattern: has_pattern(&cpu.buffer),
        };
        runner.advance(script, reply);
    }
}

const PROGRAMS: [BootProgram; 30] = [
    BootProgram::Faulting,
    BootProgram::Survivor,
    BootProgram::SenderA,
    BootProgram::SenderB,
    BootProgram::BoundaryBystander,
    BootProgram::BoundaryTest,
    BootProgram::LifecycleTest,
    BootProgram::WaitTest,
    BootProgram::KillTestBystander,
    BootProgram::KillBoundaryTest,
    BootProgram::HeapGrowthTest,
    BootProgram::SbrkBoundaryTest,
    BootProgram::ConcurrencyA,
    BootProgram::ConcurrencyB,
    BootProgram::KillCcTarget,
    BootProgram::KillCcKiller,
    BootProgram::SendCcReceiver,
    BootProgram::SendCcSender,
    BootProgram::ForcedPreemptBusy,
    BootProgram::ForcedPreemptOrdinary,
    BootProgram::ForcedPreemptKiller,
    BootProgram::KsKillTarget,
    BootProgram::KsIpc,
    BootProgram::KsHeap,
    BootProgram::KsLifecycle,
    BootProgram::KsKill,
    BootProgram::KsPressure,
    BootProgram::BlockReadSyscall,
    BootProgram::BlockBoundary,
    BootProgram::FatBoundary,
];

#[test]
fn code_does_what_its_script_says() {
    for program in PROGRAMS {
        let script = script_of(program).unwrap();
        for seed in 0..50 {
            agree(&script, seed, 300);
        }
    }
}

#[test]
fn programs_out_of_modules_have_no_script() {
    assert!(script_of(BootProgram::Init).is_none());
    assert!(script_of(BootProgram::BlockChild).is_none());
    assert!(script_of(BootProgram::FsChild).is_none());
}

#[test]
fn every_expectation_is_checked_in_code() {
    let all = [
        Expect::Anything,
        Expect::Exactly(7),
        Expect::NoError,
        Expect::Keep,
        Expect::KeptPlus(4096),
        Expect::KeptPlus(u64::MAX),
        Expect::Values { first: 1, second: 2 },
        Expect::Word { text: "pong" },
        Expect::Pattern,
        Expect::NoErrorPattern,
    ];
    for on_failure in [OnFailure::Stop, OnFailure::Continue] {
        for rounds in [Some(0), Some(1), Some(3)] {
            let script = Script {
                steps: all
                    .iter()
                    .map(|e| Step {
                        op: Op::Yield,
                        expect: *e,
                    })
                    .collect(),
                rounds,
                on_failure,
                report: Some(("GOOD", "BAD")),
                exit: (0, 9),
            };
            for seed in 0..200 {
                agree(&script, seed, 60);
            }
        }
    }
}

#[test]
fn a_short_program_is_encoded_byte_by_byte() {
    let script = Script {
        steps: vec![Step {
            op: Op::Pause,
            expect: Expect::Anything,
        }],
        rounds: None,
        on_failure: OnFailure::Continue,
        report: None,
        exit: (0, 0),
    };
    let page = Program::new(&script).unwrap().assemble().unwrap();
    assert_eq!(page[..10], [0x49, 0xBC, 1, 0, 0, 0, 0, 0, 0, 0]);
    assert_eq!(page[10..20], [0x48, 0xBB, 0, 0, 0, 0, 0, 0, 0, 0]);
    assert_eq!(page[20..30], [0x49, 0xBD, 0, 0, 0, 0, 0, 0, 0, 0]);
    assert_eq!(page[30..35], [0xE9, 157, 0, 0, 0]);
    assert_eq!(page[35..44], [0x4D, 0x85, 0xE4, 0x0F, 0x84, 74, 0, 0, 0]);
    let step = 35 + 157;
    assert_eq!(page[step..step + 2], [0xF3, 0x90]);
    assert_eq!(page[step + 2..step + 7], [0xE9, 10, 0, 0, 0]);
    assert_eq!(page[step + 17..], [0xE9, 0xEA, 0xFF, 0xFF, 0xFF]);
    assert_eq!(BUFFER + BUFFER_LEN, USER_STACK_TOP);
}

#[test]
fn too_long_a_program_does_not_fit() {
    let steps = |n: usize| {
        (0..n)
            .map(|_| Step {
                op: Op::Yield,
                expect: Expect::Values { first: 1, second: 2 },
            })
            .collect::<Vec<Step>>()
    };
    let script = |n: usize| Script {
        steps: steps(n),
        rounds: Some(1),
        on_failure: OnFailure::Stop,
        report: None,
        exit: (0, 1),
    };
    assert!(Program::new(&script(24)).unwrap().assemble().is_some());
    assert!(Program::new(&script(40)).unwrap().assemble().is_none());
    assert!(Program::new(&script(65)).is_none());
}
