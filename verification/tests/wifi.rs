use deskovery::wifi::{
    braces_in_order, cipsend_command, cipstart_command, find_ok_line, parse_ip_status,
    parse_response, request_bytes, can_read_status, Action, Device, Port, PortError,
    PortResult, Reply, WriteLog,
};

struct Recorder {
    written: Vec<u8>,
}

impl Port for Recorder {
    fn writes(&self) -> WriteLog {
        unreachable!("the write log is a proof-only view of the link")
    }

    fn write(&mut self, message: &[u8]) -> PortResult<()> {
        self.written.extend_from_slice(message);
        Ok(())
    }

    fn read(&mut self, _out: &mut [u8]) -> PortResult<usize> {
        Ok(0)
    }
}

fn device() -> Device<Recorder> {
    Device::new(Recorder { written: Vec::new() })
}

fn command(message: &[u8], expected: &'static str) -> Action {
    Action::Command { message: message.to_vec(), expected }
}

#[test]
fn write_message_ends_with_crlf() {
    let mut port = Recorder { written: Vec::new() };
    assert!(port.write_message(b"AT").is_ok());
    assert_eq!(port.written, b"AT\r\n".to_vec());
}

#[test]
fn status_is_read_after_the_marker() {
    assert_eq!(parse_ip_status(b"AT+CIPSTATUS\r\nSTATUS:2\r\n\r\nOK"), Ok(2));
    assert_eq!(parse_ip_status(b"STATUS:5"), Ok(5));
    assert_eq!(parse_ip_status(b"no status here"), Err(PortError::Error));
    assert!(can_read_status(b"STATUS:3"));
    assert!(!can_read_status(b"STATUS:"));
    assert!(!can_read_status(b"STATUS:\x01"));
    assert!(can_read_status(b"nothing"));
}

#[test]
fn connect_when_already_connected() {
    let mut d = device();
    assert_eq!(d.connect_to_wifi_if_needed(), command(b"AT+CIPSTATUS", "OK"));
    let reply = b"AT+CIPSTATUS\r\nSTATUS:2\r\n\r\nOK\r\n";
    assert!(d.accepts_reply(reply));
    assert_eq!(d.on_reply(reply), Action::Finished(Ok(Reply::Done)));
}

#[test]
fn connect_closes_an_open_connection_first() {
    let mut d = device();
    d.connect_to_wifi_if_needed();
    assert_eq!(d.on_reply(b"STATUS:3\r\nOK"), command(b"AT+CIPCLOSE", "CLOSED"));
    assert_eq!(
        d.on_reply(b"CLOSED"),
        command(b"AT+CWJAP=\"ELM NET\",\"tetkarumpumpel\"", "OK")
    );
    assert_eq!(d.on_reply(b"WIFI CONNECTED\r\nOK"), Action::Finished(Ok(Reply::Done)));
}

#[test]
fn connect_joins_when_disconnected() {
    let mut d = device();
    d.connect_to_wifi_if_needed();
    assert_eq!(
        d.on_reply(b"STATUS:5\r\nOK"),
        command(b"AT+CWJAP=\"ELM NET\",\"tetkarumpumpel\"", "OK")
    );
    assert_eq!(d.on_reply(b"OK"), Action::Finished(Ok(Reply::Done)));
}

#[test]
fn connect_fails_without_status() {
    let mut d = device();
    d.connect_to_wifi_if_needed();
    assert_eq!(d.on_reply(b"ERROR"), Action::Finished(Err(PortError::Error)));
}

#[test]
fn stale_bytes_of_the_buffer_are_searched_too() {
    let mut d = device();
    d.ip_status();
    assert_eq!(d.on_reply(b"xxxxxxxxxxxxxxxSTATUS:4"), Action::Finished(Ok(Reply::Status(4))));
    d.ip_status();
    // The shorter reply leaves the earlier status in the buffer.
    assert_eq!(d.on_reply(b"OK"), Action::Finished(Ok(Reply::Status(4))));
}

#[test]
fn ip_status_reports_the_digit() {
    let mut d = device();
    assert_eq!(d.ip_status(), command(b"AT+CIPSTATUS", "OK"));
    assert_eq!(d.on_reply(b"STATUS:3\r\nOK"), Action::Finished(Ok(Reply::Status(3))));
}

#[test]
fn close_connection_waits_for_closed() {
    let mut d = device();
    assert_eq!(d.close_connection(), command(b"AT+CIPCLOSE", "CLOSED"));
    assert_eq!(d.on_reply(b"CLOSED\r\nOK"), Action::Finished(Ok(Reply::Done)));
}

#[test]
fn establish_connection_formats_the_address() {
    let mut d = device();
    assert_eq!(
        d.establish_connection("192.168.0.101", 8000),
        command(b"AT+CIPSTART=\"TCP\",\"192.168.0.101\",8000", "OK")
    );
    assert_eq!(d.on_reply(b"CONNECT\r\n\r\nOK"), Action::Finished(Ok(Reply::Done)));
}

#[test]
fn establish_connection_rejects_an_overlong_address() {
    let mut d = device();
    let ip = "1".repeat(200);
    assert_eq!(d.establish_connection(&ip, 80), Action::Finished(Err(PortError::WriteError)));
    assert_eq!(cipstart_command(&ip, 80), Err(PortError::WriteError));
    // 19 + 105 + 2 + 2 = 128 bytes still fit; one more does not.
    assert!(cipstart_command(&"1".repeat(105), 80).is_ok());
    assert_eq!(cipstart_command(&"1".repeat(106), 80), Err(PortError::WriteError));
}

#[test]
fn request_and_send_commands() {
    let req = request_bytes(b"[]").unwrap();
    assert_eq!(
        req,
        b"POST /poll HTTP/1.1\r\nContent-Type: application/json\r\nConnection:close\r\nContent-Length: 2\r\n\r\n[]".to_vec()
    );
    assert_eq!(cipsend_command(96), b"AT+CIPSEND=96".to_vec());
    assert_eq!(request_bytes(&vec![b'x'; 1600]), Err(PortError::WriteError));
}

#[test]
fn post_request_dialogue() {
    let mut d = device();
    assert_eq!(
        d.make_post_request("[]", "192.168.0.101", 8000),
        command(b"AT+CIPSTART=\"TCP\",\"192.168.0.101\",8000", "OK")
    );
    let request = request_bytes(b"[]").unwrap();
    assert_eq!(d.on_reply(b"CONNECT\r\nOK"), Action::Command {
        message: cipsend_command(request.len()),
        expected: ">",
    });
    assert_eq!(d.on_reply(b"OK\r\n>"), Action::Transmit { data: request });
    let response = b"\r\nRecv 96 bytes\r\nSEND OK\r\n+IPD,120:HTTP/1.1 200 OK\r\nContent-Type: application/json\r\n\r\n{\"x\":1,\"y\":2,\"b1\":false,\"b2\":false,\"b3\":false,\"b4\":true}CLOSED";
    assert!(braces_in_order(response));
    assert_eq!(
        d.on_response(response),
        Action::Finished(Ok(Reply::Json(
            b"{\"x\":1,\"y\":2,\"b1\":false,\"b2\":false,\"b3\":false,\"b4\":true}".to_vec()
        )))
    );
}

#[test]
fn post_request_with_too_much_data_fails_after_connecting() {
    let mut d = device();
    let data = "x".repeat(1600);
    d.make_post_request(&data, "10.0.0.1", 80);
    assert_eq!(d.on_reply(b"OK"), Action::Finished(Err(PortError::WriteError)));
}

#[test]
fn response_needs_an_ok_status_line() {
    assert!(find_ok_line(b"HTTP/1.1 200 OK\r\n{}"));
    assert!(find_ok_line(b"junk\nHTTP/1.1 200 OK"));
    assert!(!find_ok_line(b"HTTP/1.1 200 OK\r"));
    assert!(!find_ok_line(b"HTTP/1.1 500 Internal Server Error\r\n{}"));
    assert!(!find_ok_line(b"OK\r\n"));
    assert_eq!(parse_response(b"HTTP/1.1 404 Not Found\r\n{}"), Err(PortError::HttpError));
    assert_eq!(parse_response(b"HTTP/1.1 200 OK\r\nno json"), Err(PortError::HttpError));
    assert_eq!(
        parse_response(b"HTTP/1.1 200 OK\r\n\r\n{\"a\":1}\r\nCLOSED"),
        Ok(Reply::Json(b"{\"a\":1}".to_vec()))
    );
    assert!(!braces_in_order(b"HTTP/1.1 200 OK\r\n}{"));
    assert!(braces_in_order(b"HTTP/1.1 404 NOPE\r\n}{"));
}

/// A link whose writes fail once `fail_from` writes have been made.
struct Failing {
    written: Vec<Vec<u8>>,
    fail_from: usize,
}

impl Port for Failing {
    fn writes(&self) -> WriteLog {
        unreachable!("the write log is a proof-only view of the link")
    }

    fn write(&mut self, message: &[u8]) -> PortResult<()> {
        if self.written.len() >= self.fail_from {
            return Err(PortError::WriteError);
        }
        self.written.push(message.to_vec());
        Ok(())
    }

    fn read(&mut self, _out: &mut [u8]) -> PortResult<usize> {
        Ok(0)
    }
}

#[test]
fn write_message_stops_at_the_first_failed_write() {
    let mut first = Failing { written: Vec::new(), fail_from: 0 };
    assert_eq!(first.write_message(b"AT"), Err(PortError::WriteError));
    assert!(first.written.is_empty());

    let mut second = Failing { written: Vec::new(), fail_from: 1 };
    assert_eq!(second.write_message(b"AT"), Err(PortError::WriteError));
    assert_eq!(second.written, vec![b"AT".to_vec()]);

    let mut none = Failing { written: Vec::new(), fail_from: 2 };
    assert_eq!(none.write_message(b"AT"), Ok(()));
    assert_eq!(none.written, vec![b"AT".to_vec(), b"\r\n".to_vec()]);
}
