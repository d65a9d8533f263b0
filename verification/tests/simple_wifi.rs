use deskovery::simple_wifi::{cipsend_command, parse_ip_status, Action, Data, Device, Port, PortError, PortResult, Reply, WriteLog};

struct Silent;

impl Port for Silent {
    fn writes(&self) -> WriteLog {
        unreachable!("the write log is a proof-only view of the link")
    }

    fn write(&mut self, _message: &[u8]) -> PortResult<()> {
        Err(PortError::Error)
    }

    fn read(&mut self, _out: &mut [u8]) -> PortResult<usize> {
        Ok(0)
    }
}

fn command(message: &[u8], expected: &'static str) -> Action {
    Action::Command { message: message.to_vec(), expected }
}

#[test]
fn status_must_open_the_reply() {
    assert_eq!(parse_ip_status(b"STATUS:2\r\nOK"), Ok(b'2'));
    assert_eq!(parse_ip_status(b"AT\r\nSTATUS:2"), Err(PortError::Error));
}

#[test]
fn connect_to_wifi_takes_three_commands() {
    let mut d = Device::new(Silent);
    assert_eq!(d.connect_to_wifi(), command(b"AT", "OK"));
    assert_eq!(d.on_reply(b"OK"), command(b"AT+CWMODE=1", "OK"));
    assert_eq!(
        d.on_reply(b"OK"),
        command(b"AT+CWJAP=\"JetBrains-Guest\",\"wifiusers90\"", "OK")
    );
    assert_eq!(d.on_reply(b"OK"), Action::Finished(Ok(Reply::Done)));
}

#[test]
fn status_close_and_connect() {
    let mut d = Device::new(Silent);
    assert_eq!(d.ip_status(), command(b"AT+CIPSTATUS", "OK"));
    assert_eq!(d.on_reply(b"STATUS:4\r\nOK"), Action::Finished(Ok(Reply::Status(b'4'))));
    assert_eq!(d.close_connection(), command(b"AT+CIPCLOSE", "CLOSED"));
    assert_eq!(d.on_reply(b"CLOSED"), Action::Finished(Ok(Reply::Done)));
    assert_eq!(
        d.establish_connection(),
        command(b"AT+CIPSTART=\"TCP\",\"104.236.228.23\",8000", "OK")
    );
    assert_eq!(d.on_reply(b"OK"), Action::Finished(Ok(Reply::Done)));
}

#[test]
fn post_writes_the_message_after_the_prompt() {
    let mut d = Device::new(Silent);
    let message = "GET /poll HTTP/1.1\n\n";
    assert_eq!(d.make_post_request(message), command(b"AT+CIPSEND=20", ">"));
    assert_eq!(d.on_reply(b">"), Action::WriteUnchecked { data: message.as_bytes().to_vec() });
    assert_eq!(d.on_written(), Action::Finished(Ok(Reply::Posted(Data))));
    assert_eq!(cipsend_command(0), b"AT+CIPSEND=0".to_vec());
}

#[test]
fn write_message_returns_the_error_of_a_failed_write() {
    let mut port = Silent;
    assert_eq!(port.write_message(b"AT"), Err(PortError::Error));
}
