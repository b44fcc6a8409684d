use gameboy::timer::Timer;

#[test]
fn timer_increment_tac_05() {
    let mut timer = Timer::new();
    let (mut div, mut tima, mut if_) = (0u8, 0u8, 0u8);
    timer.tick(&mut div, &mut tima, 0, 0x05, &mut if_, 16);
    assert_eq!(tima, 0x01);
    // 4096 dots in all: 256 increments, the last one overflowing TIMA,
    // which is then reloaded from TMA and raises the timer interrupt.
    for _ in 1..256 {
        timer.tick(&mut div, &mut tima, 0, 0x05, &mut if_, 16);
    }
    assert_eq!(timer.counter(), 4096);
    assert_eq!(tima, 0x00);
    assert_eq!(if_ & 0x04, 0x04);
    assert_eq!(div, 0x10);
}

#[test]
fn timer_reloads_from_tma() {
    let mut timer = Timer::new();
    let (mut div, mut tima, mut if_) = (0u8, 0xFFu8, 0xE0u8);
    timer.tick(&mut div, &mut tima, 0xAB, 0x05, &mut if_, 16);
    assert_eq!(tima, 0xAB);
    assert_eq!(if_, 0xE4);
}

#[test]
fn timer_disabled_only_moves_the_counter() {
    let mut timer = Timer::new();
    let (mut div, mut tima, mut if_) = (0u8, 0x12u8, 0u8);
    for _ in 0..300 {
        timer.tick(&mut div, &mut tima, 0, 0x01, &mut if_, 24);
    }
    assert_eq!(timer.counter(), 7200);
    assert_eq!(tima, 0x12);
    assert_eq!(if_, 0);
    assert_eq!(div as u16, 7200 >> 8);
}

#[test]
fn timer_rates_follow_tac() {
    // TAC & 3 = 0, 1, 2, 3 select counter bits 10, 4, 6, 8; TIMA counts
    // every change of the selected bit.
    for (tac, period) in [(0x04u8, 1024u32), (0x05, 16), (0x06, 64), (0x07, 256)] {
        let mut timer = Timer::new();
        let (mut div, mut tima, mut if_) = (0u8, 0u8, 0u8);
        let mut dots = 0u32;
        while dots < 2048 {
            timer.tick(&mut div, &mut tima, 0, tac, &mut if_, 16);
            dots += 16;
        }
        assert_eq!(tima as u32, 2048 / period, "tac {:#x}", tac);
    }
}

#[test]
fn div_is_the_counter_high_byte() {
    let mut timer = Timer::new();
    let (mut div, mut tima, mut if_) = (0u8, 0u8, 0u8);
    for _ in 0..1000 {
        timer.tick(&mut div, &mut tima, 0, 0x06, &mut if_, 20);
        assert_eq!(div, (timer.counter() >> 8) as u8);
    }
}
