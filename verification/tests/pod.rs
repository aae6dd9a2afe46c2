use sev::certs::le::{push_le, read_le};
use sev::certs::sev::{Certificate, CERTIFICATE_SIZE};
use sev::certs::util::{
    pod_array, push_array, read_array, ByteReader, ByteWriter, Pod, TypeLoad, TypeSave,
};
use sev::certs::Error;
use sev::firmware::linux::{CertBuffer, Code, Command, ExportBuffers, ImportBuffers, Info};

fn patterned(seed: u8) -> Certificate {
    let mut bytes = [0u8; CERTIFICATE_SIZE];
    for (i, byte) in bytes.iter_mut().enumerate() {
        *byte = (i as u8).wrapping_mul(31).wrapping_add(seed);
    }
    Certificate { bytes }
}

#[test]
fn push_le_writes_the_low_byte_first() {
    let mut out = vec![0xaa];
    push_le(&mut out, 0x1122_3344_5566_7788, 8);
    push_le(&mut out, 0x0102_0304, 4);
    push_le(&mut out, 0x0102_0304, 2);
    push_le(&mut out, 7, 0);
    assert_eq!(
        out,
        vec![
            0xaa, 0x88, 0x77, 0x66, 0x55, 0x44, 0x33, 0x22, 0x11, 0x04, 0x03, 0x02, 0x01, 0x04,
            0x03
        ]
    );
}

#[test]
fn read_le_reads_the_low_byte_first() {
    let bytes = [0xff, 0x88, 0x77, 0x66, 0x55, 0x44, 0x33, 0x22, 0x11, 0xff];
    assert_eq!(read_le(&bytes, 1, 8), 0x1122_3344_5566_7788);
    assert_eq!(read_le(&bytes, 1, 4), 0x5566_7788);
    assert_eq!(read_le(&bytes, 8, 2), 0xff11);
    assert_eq!(read_le(&bytes, 3, 0), 0);
}

#[test]
fn arrays_are_copied_byte_for_byte() {
    let mut out = vec![1u8];
    push_array(&mut out, &[2u8, 3, 4]);
    assert_eq!(out, vec![1, 2, 3, 4]);
    let held: [u8; 2] = read_array::<2>(&out, 1);
    assert_eq!(held, [2, 3]);
}

#[test]
fn command_record_is_laid_out_without_padding() {
    let command = Command::new(Code::PdhCertificateExport, 0x1122_3344_5566_7788);
    assert_eq!(command, Command { code: 5, data: 0x1122_3344_5566_7788, error: 0 });
    assert_eq!(
        command.to_bytes(),
        [5, 0, 0, 0, 0x88, 0x77, 0x66, 0x55, 0x44, 0x33, 0x22, 0x11, 0, 0, 0, 0]
    );
    assert_eq!(Command::width(), 16);
    let answered = Command::decode(&[
        7, 0, 0, 0, 0x10, 0x20, 0x30, 0x40, 0x50, 0x60, 0x70, 0x80, 0x15, 0x00, 0x00, 0x01,
    ]);
    assert_eq!(answered, Command { code: 7, data: 0x8070_6050_4030_2010, error: 0x0100_0015 });
}

#[test]
fn status_report_is_laid_out_without_padding() {
    let info = Info {
        api_major: 1,
        api_minor: 2,
        state: 3,
        flags: 0x0403_0201,
        build: 9,
        guest_count: 0x0d0c_0b0a,
    };
    let mut out = Vec::new();
    info.encode(&mut out);
    assert_eq!(out, vec![1, 2, 3, 0x01, 0x02, 0x03, 0x04, 9, 0x0a, 0x0b, 0x0c, 0x0d]);
    assert_eq!(Info::width(), 12);
    assert_eq!(Info::decode(&out), info);
}

#[test]
fn buffer_descriptions_carry_the_size_of_what_they_point_to() {
    let one = CertBuffer::new(0x0000_7ffc_1234_5678);
    assert_eq!(one, CertBuffer { addr: 0x0000_7ffc_1234_5678, len: 2084 });
    assert_eq!(one.to_bytes(), [0x78, 0x56, 0x34, 0x12, 0xfc, 0x7f, 0, 0, 0x24, 0x08, 0, 0]);
    assert_eq!(CertBuffer::decode(&one.to_bytes()), one);
    assert_eq!(CertBuffer::width(), 12);

    let export = ExportBuffers::new(0x10, 0x20);
    assert_eq!(
        export,
        ExportBuffers { pdh_addr: 0x10, pdh_size: 2084, chain_addr: 0x20, chain_size: 6252 }
    );
    assert_eq!(
        export.to_bytes(),
        [
            0x10, 0, 0, 0, 0, 0, 0, 0, 0x24, 0x08, 0, 0, 0x20, 0, 0, 0, 0, 0, 0, 0, 0x6c, 0x18, 0,
            0
        ]
    );
    assert_eq!(ExportBuffers::decode(&export.to_bytes()), export);
    assert_eq!(ExportBuffers::width(), 24);

    let import = ImportBuffers::new(0x0102_0304_0506_0708, 0x1112_1314_1516_1718);
    assert_eq!(
        import,
        ImportBuffers {
            pek_addr: 0x0102_0304_0506_0708,
            pek_size: 2084,
            oca_addr: 0x1112_1314_1516_1718,
            oca_size: 2084
        }
    );
    assert_eq!(
        import.to_bytes(),
        [
            8, 7, 6, 5, 4, 3, 2, 1, 0x24, 0x08, 0, 0, 0x18, 0x17, 0x16, 0x15, 0x14, 0x13, 0x12,
            0x11, 0x24, 0x08, 0, 0
        ]
    );
    assert_eq!(ImportBuffers::decode(&import.to_bytes()), import);
    assert_eq!(ImportBuffers::width(), 24);
}

#[test]
fn certificate_is_its_bytes() {
    let cert = patterned(5);
    let mut out = Vec::new();
    cert.encode(&mut out);
    assert_eq!(out, cert.bytes.to_vec());
    assert_eq!(Certificate::decode(&out).bytes, cert.bytes);
    assert_eq!(Certificate::width(), 2084);
    let held: [u8; CERTIFICATE_SIZE] = pod_array::<Certificate, CERTIFICATE_SIZE>(&cert);
    assert_eq!(held, cert.bytes);
}

#[test]
fn what_is_saved_is_loaded() {
    let command = Command { code: 3, data: 0xdead_beef, error: 0x11 };
    let info =
        Info { api_major: 0, api_minor: 17, state: 2, flags: 0x101, build: 5, guest_count: 3 };
    let cert = patterned(1);
    let one = CertBuffer { addr: 1, len: 2 };
    let export = ExportBuffers { pdh_addr: 3, pdh_size: 4, chain_addr: 5, chain_size: 6 };
    let import = ImportBuffers { pek_addr: 7, pek_size: 8, oca_addr: 9, oca_size: 10 };

    let mut writer = ByteWriter::new(4096);
    writer.save(&command).unwrap();
    writer.save(&info).unwrap();
    writer.save(&cert).unwrap();
    writer.save(&one).unwrap();
    writer.save(&export).unwrap();
    writer.save(&import).unwrap();
    assert_eq!(writer.as_slice().len(), 16 + 12 + 2084 + 12 + 24 + 24);
    assert_eq!(writer.available(), 4096 - (16 + 12 + 2084 + 12 + 24 + 24));

    let bytes = writer.into_bytes();
    let mut reader = ByteReader::new(&bytes);
    assert_eq!(reader.load::<Command>().unwrap(), command);
    assert_eq!(reader.load::<Info>().unwrap(), info);
    assert_eq!(reader.load::<Certificate>().unwrap().bytes, cert.bytes);
    assert_eq!(reader.load::<CertBuffer>().unwrap(), one);
    assert_eq!(reader.load::<ExportBuffers>().unwrap(), export);
    assert_eq!(reader.load::<ImportBuffers>().unwrap(), import);
    assert_eq!(reader.remaining(), 0);
}

#[test]
fn what_is_loaded_is_saved_as_it_was() {
    let mut bytes = [0u8; 16];
    for (i, byte) in bytes.iter_mut().enumerate() {
        *byte = 0xf0 + i as u8;
    }
    let command: Command = ByteReader::new(&bytes).load().unwrap();
    let mut writer = ByteWriter::new(16);
    writer.save(&command).unwrap();
    assert_eq!(writer.as_slice(), &bytes[..]);
}

#[test]
fn source_that_runs_short_is_left_as_it_was() {
    let bytes = [1u8; 20];
    let mut reader = ByteReader::new(&bytes);
    assert_eq!(reader.remaining(), 20);
    assert!(reader.load::<Command>().is_ok());
    assert_eq!(reader.remaining(), 4);
    assert!(matches!(reader.load::<Command>(), Err(Error::UnexpectedEof)));
    assert_eq!(reader.remaining(), 4);
    assert!(matches!(reader.load::<Info>(), Err(Error::UnexpectedEof)));
    assert!(matches!(ByteReader::new(&[]).load::<Certificate>(), Err(Error::UnexpectedEof)));
}

#[test]
fn sink_without_room_takes_nothing() {
    let command = Command { code: 1, data: 2, error: 3 };
    let mut writer = ByteWriter::new(20);
    assert_eq!(writer.available(), 20);
    assert!(writer.save(&command).is_ok());
    assert_eq!(writer.available(), 4);
    assert!(matches!(writer.save(&command), Err(Error::WriteZero)));
    assert_eq!(writer.available(), 4);
    assert_eq!(writer.as_slice().len(), 16);
    assert!(matches!(ByteWriter::new(0).save(&command), Err(Error::WriteZero)));
}

#[test]
fn sink_with_exactly_enough_room_is_filled() {
    let mut writer = ByteWriter::new(12);
    let info = Info { api_major: 1, api_minor: 1, state: 1, flags: 1, build: 1, guest_count: 1 };
    assert!(writer.save(&info).is_ok());
    assert_eq!(writer.available(), 0);
    assert_eq!(writer.into_bytes(), vec![1, 1, 1, 1, 0, 0, 0, 1, 1, 0, 0, 0]);
}
