use ruverta::bus::handshake::{Master, Slave};

const IDLE: Master = Master {
    awvalid: false,
    wvalid: false,
    bready: false,
    arvalid: false,
    rready: false,
};

#[test]
fn reset_state_is_all_low() {
    let s = Slave::reset();
    assert!(!s.awready && !s.wready && !s.bvalid && !s.arready && !s.rvalid);
    assert_eq!(s.step(IDLE), s);
}

#[test]
fn write_with_the_response_taken_at_once() {
    let s0 = Slave::reset();
    let s1 = s0.step(Master { awvalid: true, wvalid: true, ..IDLE });
    assert_eq!((s1.awready, s1.wready, s1.bvalid), (true, true, false));
    let s2 = s1.step(IDLE);
    assert_eq!((s2.awready, s2.wready, s2.bvalid), (false, false, true));
    let s3 = s2.step(Master { bready: true, ..IDLE });
    assert_eq!((s3.awready, s3.wready, s3.bvalid), (false, false, false));
    let s4 = s3.step(IDLE);
    assert_eq!(s4, Slave::reset());
}

#[test]
fn write_response_is_held_until_it_is_taken() {
    for wait in 0..8 {
        let s1 = Slave::reset().step(Master { awvalid: true, wvalid: true, ..IDLE });
        assert_eq!((s1.awready, s1.wready, s1.bvalid), (true, true, false));
        let mut s = s1.step(IDLE);
        assert_eq!((s.awready, s.wready, s.bvalid), (false, false, true));
        for _ in 0..wait {
            s = s.step(IDLE);
            assert_eq!((s.awready, s.wready, s.bvalid), (false, false, true));
        }
        s = s.step(Master { bready: true, ..IDLE });
        assert_eq!((s.awready, s.wready, s.bvalid), (false, false, false));
        s = s.step(Master { bready: true, ..IDLE });
        assert_eq!(s, Slave::reset());
    }
}

#[test]
fn read_data_is_held_until_it_is_taken() {
    for wait in 0..8 {
        let mut s = Slave::reset().step(Master { arvalid: true, ..IDLE });
        assert_eq!((s.arready, s.rvalid), (true, true));
        for _ in 0..wait {
            s = s.step(IDLE);
            assert_eq!((s.arready, s.rvalid), (false, true));
        }
        s = s.step(Master { rready: true, ..IDLE });
        assert_eq!((s.arready, s.rvalid), (false, false));
        assert_eq!(s.step(IDLE), Slave::reset());
    }
}

#[test]
fn readies_are_pulses_while_valid_is_held() {
    let hold = Master { awvalid: true, wvalid: true, arvalid: true, ..IDLE };
    let mut s = Slave::reset();
    let mut seen = vec![];
    for _ in 0..6 {
        s = s.step(hold);
        seen.push((s.awready, s.wready, s.arready));
    }
    let hi = (true, true, true);
    let lo = (false, false, false);
    assert_eq!(seen, vec![hi, lo, hi, lo, hi, lo]);
}

#[test]
fn read_data_is_valid_after_the_address_is_accepted() {
    let s1 = Slave::reset().step(Master { arvalid: true, ..IDLE });
    assert_eq!((s1.arready, s1.rvalid), (true, true));
    let s2 = s1.step(Master { rready: true, ..IDLE });
    assert_eq!((s2.arready, s2.rvalid), (false, false));
}

#[test]
fn every_step_follows_the_five_rules() {
    for bits in 0u32..1024 {
        let b = |i: u32| bits >> i & 1 == 1;
        let s = Slave { awready: b(0), wready: b(1), bvalid: b(2), arready: b(3), rvalid: b(4) };
        let m = Master { awvalid: b(5), wvalid: b(6), bready: b(7), arvalid: b(8), rready: b(9) };
        let n = s.step(m);
        assert_eq!(n.awready, m.awvalid && !s.awready);
        assert_eq!(n.wready, m.wvalid && !s.wready);
        assert_eq!(n.arready, m.arvalid && !s.arready);
        let bvalid = if s.bvalid && m.bready {
            false
        } else if s.awready && s.wready {
            true
        } else {
            s.bvalid
        };
        let rvalid = if s.rvalid && m.rready {
            false
        } else if m.arvalid && !s.arready {
            true
        } else {
            s.rvalid
        };
        assert_eq!(n.bvalid, bvalid);
        assert_eq!(n.rvalid, rvalid);
        assert_eq!(n.bvalid, if s.bvalid { !m.bready } else { s.awready && s.wready });
        assert_eq!(n.rvalid, if s.rvalid { !m.rready } else { m.arvalid && !s.arready });
    }
}
