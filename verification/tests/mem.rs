use idioms::mem::{Buffer, Render, Render1};

#[test]
fn update_buffer_should_works() {
    let mut r = Render {
        current_buffer: Buffer {
            buffer: "a".to_string(),
        },
        next_buffer: Some(Buffer {
            buffer: "b".to_string(),
        }),
    };
    r.update_buffer("c".to_string());
    assert_eq!(
        Buffer {
            buffer: "b".to_string()
        },
        r.current_buffer
    );
    assert_eq!(
        Some(Buffer {
            buffer: "c".to_string()
        }),
        r.next_buffer
    );

    let mut r1 = Render1 {
        current_buffer: Buffer {
            buffer: "a".to_string(),
        },
        next_buffer: Buffer {
            buffer: "b".to_string(),
        },
    };
    r1.update_buffer("c".to_string());
    assert_eq!(
        Buffer {
            buffer: "b".to_string()
        },
        r1.current_buffer
    );
    assert_eq!(
        Buffer {
            buffer: "c".to_string()
        },
        r1.next_buffer
    );
}

#[test]
fn update_buffer_without_next_keeps_everything() {
    let mut r = Render {
        current_buffer: Buffer {
            buffer: "a".to_string(),
        },
        next_buffer: None,
    };
    r.update_buffer("c".to_string());
    assert_eq!(Buffer { buffer: "a".to_string() }, r.current_buffer);
    assert_eq!(None, r.next_buffer);
}
