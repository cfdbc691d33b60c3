use bytes::Bytes;
use moq_transfork::error::Error;
use moq_transfork::group::{GroupReceiver, GroupServer};
use moq_transfork::message::Frame;
use moq_transfork::writer::Writer;

#[derive(Debug, Clone, PartialEq)]
enum Token {
    Head(usize),
    Byte(u8),
}

fn put(frames: &[(usize, Vec<&[u8]>)], stream: &mut Vec<Token>) -> Result<(), Error> {
    let mut server = GroupServer::new();
    for (size, chunks) in frames {
        assert_eq!(server.next_frame(Some(*size)), Some(Frame { size: *size }));
        stream.push(Token::Head(*size));
        for chunk in chunks {
            let sent = server.chunk(Some(Bytes::copy_from_slice(chunk)))?.unwrap();
            stream.extend(sent.iter().map(|byte| Token::Byte(*byte)));
        }
        assert_eq!(server.chunk(None)?, None);
    }
    assert_eq!(server.next_frame(None), None);
    Ok(())
}

fn send(frames: &[(usize, Vec<&[u8]>)]) -> Result<Vec<Token>, Error> {
    let mut stream = Vec::new();
    put(frames, &mut stream)?;
    Ok(stream)
}

fn receive(stream: &[Token], most: usize) -> Result<Vec<Vec<u8>>, Error> {
    let mut receiver = GroupReceiver::new();
    let mut frames = Vec::new();
    let mut at = 0;
    loop {
        let head = match stream.get(at) {
            Some(Token::Head(size)) => Some(Frame { size: *size }),
            _ => None,
        };
        at += 1;
        let Some(size) = receiver.frame(head) else {
            return Ok(frames);
        };
        let mut frame = Vec::new();
        while receiver.wants() > 0 {
            let n = most.min(receiver.wants()).min(stream.len() - at);
            let chunk = stream[at..at + n]
                .iter()
                .map(|token| match token {
                    Token::Byte(byte) => *byte,
                    Token::Head(_) => panic!("head within a frame"),
                })
                .collect::<Vec<u8>>();
            at += n;
            let chunk = if n == 0 { None } else { Some(Bytes::from(chunk)) };
            frame.extend_from_slice(&receiver.chunk(chunk)?);
        }
        assert_eq!(frame.len(), size);
        frames.push(frame);
    }
}

#[test]
fn group_arrives_as_it_was_sent() {
    let frames: Vec<(usize, Vec<&[u8]>)> = vec![
        (5, vec![b"he", b"", b"llo"]),
        (0, vec![]),
        (3, vec![b"abc"]),
    ];
    let stream = send(&frames).unwrap();
    assert_eq!(stream.len(), 3 + 8);
    for most in [1, 2, 3, 100] {
        assert_eq!(
            receive(&stream, most).unwrap(),
            vec![b"hello".to_vec(), vec![], b"abc".to_vec()]
        );
    }
}

#[test]
fn stream_does_not_depend_on_chunks() {
    let whole = send(&[(5, vec![b"hello"])]).unwrap();
    let split = send(&[(5, vec![b"h", b"el", b"lo"])]).unwrap();
    assert_eq!(whole, split);
}

#[test]
fn long_frame_is_not_sent() {
    assert_eq!(send(&[(4, vec![b"hel", b"lo"])]), Err(Error::WrongSize));
}

#[test]
fn group_is_sent_up_to_a_wrong_frame() {
    let first: (usize, Vec<&[u8]>) = (2, vec![b"a", b"b"]);
    let last: (usize, Vec<&[u8]>) = (1, vec![b"z"]);
    for wrong in [(4, vec![b"hel" as &[u8], b"lo", b""]), (9, vec![b"hel"])] {
        let mut stream = Vec::new();
        let size = wrong.0;
        let frames = [first.clone(), wrong, last.clone()];
        assert_eq!(put(&frames, &mut stream), Err(Error::WrongSize));
        assert_eq!(
            stream,
            vec![
                Token::Head(2),
                Token::Byte(b'a'),
                Token::Byte(b'b'),
                Token::Head(size),
                Token::Byte(b'h'),
                Token::Byte(b'e'),
                Token::Byte(b'l'),
            ]
        );
    }
}

#[test]
fn stream_is_received_where_it_is_a_framing() {
    let stream = send(&[(2, vec![b"ab"]), (0, vec![]), (3, vec![b"cde"])]).unwrap();
    let frames = vec![b"ab".to_vec(), vec![], b"cde".to_vec()];
    for (end, whole) in [(0, 0), (3, 1), (4, 2), (8, 3)] {
        assert_eq!(receive(&stream[..end], 2), Ok(frames[..whole].to_vec()));
    }
    for end in [1, 2, 5, 6, 7] {
        assert_eq!(receive(&stream[..end], 2), Err(Error::WrongSize));
    }
}

#[test]
fn frame_is_not_exceeded() {
    let mut server = GroupServer::new();
    assert!(server.next_frame(Some(4)).is_some());
    assert!(server.chunk(Some(Bytes::from_static(b"hell"))).is_ok());
    assert_eq!(
        server.chunk(Some(Bytes::from_static(b"o"))),
        Err(Error::WrongSize)
    );
    assert_eq!(server.chunk(None), Ok(None));
}

#[test]
fn short_frame_is_not_sent() {
    assert_eq!(send(&[(6, vec![b"hello"])]), Err(Error::WrongSize));
}

#[test]
fn truncated_frame_is_refused() {
    let mut stream = send(&[(2, vec![b"ab"]), (5, vec![b"hello"])]).unwrap();
    stream.pop();
    assert_eq!(receive(&stream, 2), Err(Error::WrongSize));
    stream.truncate(3);
    assert_eq!(receive(&stream, 2).unwrap(), vec![b"ab".to_vec()]);
}

#[test]
fn chunk_beyond_the_frame_is_refused() {
    let mut receiver = GroupReceiver::new();
    assert_eq!(receiver.frame(Some(Frame { size: 2 })), Some(2));
    assert_eq!(
        receiver.chunk(Some(Bytes::from_static(b"abc"))),
        Err(Error::WrongSize)
    );
    assert_eq!(receiver.wants(), 2);
    assert_eq!(
        receiver.chunk(Some(Bytes::from_static(b"a"))),
        Ok(Bytes::from_static(b"a"))
    );
    assert_eq!(receiver.wants(), 1);
}

#[test]
fn message_is_sent_whole() {
    let mut writer = Writer::open(b"kind");
    let mut sent = Vec::new();
    while !writer.is_empty() {
        sent.push(writer.pending()[0]);
        writer.wrote(1);
    }
    assert_eq!(sent, b"kind");

    writer.encode(b"hello world");
    assert_eq!(writer.pending(), b"hello world");
    writer.wrote(6);
    assert_eq!(writer.pending(), b"world");
    assert!(!writer.is_empty());
    writer.wrote(5);
    assert!(writer.is_empty());
}

#[test]
fn new_message_drops_the_rest() {
    let mut writer = Writer::new();
    assert!(writer.is_empty());
    writer.encode(b"first");
    writer.wrote(2);
    writer.encode(b"second");
    assert_eq!(writer.pending(), b"second");
    writer.encode(b"");
    assert!(writer.is_empty());
}
