use coepi_core::errors::{PersistenceError, ServicesError, TcnParseError};
use coepi_core::observed_tcn::{ObservedTcn, TcnDao};
use coepi_core::observed_tcn_processor::{
    tcn_from_hex, ObservedTcnProcessor, ObservedTcnProcessorImpl,
};
use coepi_core::reports_interval::UnixTime;
use std::cell::RefCell;

struct MemoryDao {
    saved: RefCell<Vec<ObservedTcn>>,
    fails: bool,
}

impl TcnDao for MemoryDao {
    fn all(&self) -> Result<Vec<ObservedTcn>, ServicesError> {
        Ok(self.saved.borrow().clone())
    }

    fn save(&self, observed_tcn: ObservedTcn) -> Result<(), ServicesError> {
        if self.fails {
            return Err(ServicesError::Persistence(PersistenceError::Transaction(
                "commit failed".to_owned(),
            )));
        }
        self.saved.borrow_mut().push(observed_tcn);
        Ok(())
    }
}

#[test]
fn hex_text_becomes_a_contact_number() {
    assert_eq!(
        tcn_from_hex("18e57df56256dbddac19e896ce42a4ad"),
        Ok([24, 229, 125, 245, 98, 86, 219, 221, 172, 25, 232, 150, 206, 66, 164, 173])
    );
    assert_eq!(
        tcn_from_hex("000102030405060708090A0B0C0D0E0F"),
        Ok([0, 1, 2, 3, 4, 5, 6, 7, 8, 9, 10, 11, 12, 13, 14, 15])
    );
    assert_eq!(
        tcn_from_hex("fFfEfdFCaAbBcCdDeE0123456789aBcD"),
        Ok([255, 254, 253, 252, 170, 187, 204, 221, 238, 1, 35, 69, 103, 137, 171, 205])
    );
}

#[test]
fn text_that_is_not_hex_is_refused() {
    let invalid = Err(ServicesError::Decode(TcnParseError::InvalidHex));
    assert_eq!(tcn_from_hex("18e57df56256dbddac19e896ce42a4ag"), invalid);
    assert_eq!(tcn_from_hex("18e57df56256dbddac19e896ce42a4a"), invalid);
    assert_eq!(tcn_from_hex("0"), invalid);
    assert_eq!(tcn_from_hex("18e57df56256dbddac19e896ce42a4 d"), invalid);
    assert_eq!(tcn_from_hex("é8e57df56256dbddac19e896ce42a4ad"), invalid);
    assert_eq!(tcn_from_hex("éé"), invalid);
}

#[test]
fn hex_of_another_length_is_refused() {
    let wrong_length = Err(ServicesError::Decode(TcnParseError::InvalidLength));
    assert_eq!(tcn_from_hex(""), wrong_length);
    assert_eq!(tcn_from_hex("18e5"), wrong_length);
    assert_eq!(tcn_from_hex("18e57df56256dbddac19e896ce42a4"), wrong_length);
    assert_eq!(tcn_from_hex("18e57df56256dbddac19e896ce42a4ad00"), wrong_length);
}

#[test]
fn save_writes_the_number_with_the_time() {
    let dao = MemoryDao { saved: RefCell::new(Vec::new()), fails: false };
    let processor = ObservedTcnProcessorImpl { tcn_dao: &dao };
    let before = UnixTime::now();
    assert_eq!(processor.save("18e57df56256dbddac19e896ce42a4ad"), Ok(()));
    let after = UnixTime::now();
    let saved = dao.saved.borrow();
    assert_eq!(saved.len(), 1);
    assert_eq!(
        saved[0].tcn,
        [24, 229, 125, 245, 98, 86, 219, 221, 172, 25, 232, 150, 206, 66, 164, 173]
    );
    assert!(before.value <= saved[0].time.value && saved[0].time.value <= after.value);
}

#[test]
fn save_writes_nothing_where_the_text_is_refused() {
    let dao = MemoryDao { saved: RefCell::new(Vec::new()), fails: false };
    let processor = ObservedTcnProcessorImpl { tcn_dao: &dao };
    assert_eq!(processor.save("xyz"), Err(ServicesError::Decode(TcnParseError::InvalidHex)));
    assert_eq!(processor.save("18e5"), Err(ServicesError::Decode(TcnParseError::InvalidLength)));
    assert!(dao.saved.borrow().is_empty());
}

#[test]
fn save_hands_on_the_failure_of_the_log() {
    let dao = MemoryDao { saved: RefCell::new(Vec::new()), fails: true };
    let processor = ObservedTcnProcessorImpl { tcn_dao: &dao };
    assert_eq!(
        processor.save("18e57df56256dbddac19e896ce42a4ad"),
        Err(ServicesError::Persistence(PersistenceError::Transaction("commit failed".to_owned())))
    );
    assert!(dao.saved.borrow().is_empty());
}
